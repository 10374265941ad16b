//! Decode a raw telnet/ANSI input byte stream into key events.
//!
//! Over an inherited door socket there is no console to read events from, so the
//! bytes are parsed here. Handles telnet IAC negotiation (stripped), arrow keys as
//! `ESC [` / `ESC O` sequences, a lone `ESC` as the Esc key (resolved on the next
//! idle poll), and CR / CRLF / CR-NUL as Enter.
//!
//! A legacy terminal sends no key-up events: callers treat every key as a press
//! and rely on the button-release timeout. Terminals with an enhanced keyboard
//! protocol report press and release edges instead.

use crate::color::ColorDepth;
use crate::text;
use vstd::prelude::*;

verus! {

#[derive(Clone, Copy, PartialEq, Eq, Debug, Structural)]
pub enum Key {
    Char(char),
    Up,
    Down,
    Left,
    Right,
    Enter,
    Esc,
    Tab,
    BackTab,
    Backspace,
    PageUp,
    PageDown,
}

// Telnet
pub const IAC: u8 = 255;

pub const SE: u8 = 240;

pub const SB: u8 = 250;

pub const WILL: u8 = 251;

pub const WONT: u8 = 252;

pub const DO: u8 = 253;

pub const DONT: u8 = 254;

pub const ESC: u8 = 0x1b;

/// Where the decoder stands in the byte stream.
#[derive(Clone, Copy, PartialEq, Eq, Debug, Structural)]
pub enum State {
    Ground,
    /// Saw ESC, awaiting continuation (or idle, which makes it `Key::Esc`).
    Esc,
    /// Saw `ESC [`, accumulating to a final byte.
    Csi,
    /// Saw `ESC O`, awaiting one byte.
    Ss3,
    /// Saw `ESC P`, accumulating a device-control string (DECRQSS reply).
    Dcs,
    /// Inside a DCS, saw ESC, awaiting the `\` of the ST terminator.
    DcsEsc,
    /// Saw IAC.
    Iac,
    /// Saw IAC and WILL/WONT/DO/DONT, awaiting the option byte.
    IacOpt,
    /// Inside SB, awaiting IAC.
    IacSub,
    /// Inside SB, saw IAC, awaiting SE.
    IacSubIac,
}

/// Longest DCS body, in UTF-8 bytes, that still takes another character (a
/// malformed stream with no ST terminator can't be allowed to grow unbounded).
pub const MAX_DCS_LEN: usize = 64;

/// Which keyboard-input protocol the connected terminal supports, resolved from
/// the startup capability probes (folded into the size-probe handshake). Selects
/// how key edges are read; `Legacy` is the universal fallback (translated keys +
/// the button-release timeout).
#[derive(Clone, Copy, PartialEq, Eq, Debug, Structural)]
pub enum KeyboardMode {
    /// SyncTERM/CTerm physical key reports (`CSI = 1 h`, evdev `K`/`k` edges).
    CtermPhysical,
    /// Kitty keyboard protocol (`CSI > flags u`, CSI-u events with press/release).
    Kitty,
    /// No enhanced protocol: translated keys only.
    Legacy,
}

/// A physical key edge from a CTerm physical-key report (`CSI = Pk;… K|k`):
/// the evdev key code and whether it went down (`pressed`) or up.
#[derive(Clone, Copy, PartialEq, Eq, Debug, Structural)]
pub struct KeyEdge {
    pub code: u16,
    pub pressed: bool,
}

// ---------------------------------------------------------------------------
// Model
// ---------------------------------------------------------------------------

/// What a decoder knows.
#[verifier::ext_equal]
pub struct Decoder {
    pub state: State,
    /// Swallow the LF/NUL that may follow a CR.
    pub cr_seen: bool,
    /// Accumulated CSI parameter bytes.
    pub csi: Seq<char>,
    /// Accumulated DCS body.
    pub dcs: Seq<char>,
    /// Last cursor-position report (row, col).
    pub cursor: Option<(u16, u16)>,
    /// Channel of the last audio drain report.
    pub audio_drain: Option<u8>,
    pub phys_keys: bool,
    pub kitty_keys: bool,
    pub da1_seen: bool,
    pub color_probe: Option<ColorDepth>,
    /// Physical key edges awaiting the caller.
    pub key_edges: Seq<KeyEdge>,
    pub kitty_active: bool,
}

/// The decoder of a fresh connection.
pub open spec fn fresh() -> Decoder {
    Decoder {
        state: State::Ground,
        cr_seen: false,
        csi: Seq::empty(),
        dcs: Seq::empty(),
        cursor: None,
        audio_drain: None,
        phys_keys: false,
        kitty_keys: false,
        da1_seen: false,
        color_probe: None,
        key_edges: Seq::empty(),
        kitty_active: false,
    }
}

/// Length in UTF-8 of text whose characters all came from single bytes.
pub open spec fn utf8_len(s: Seq<char>) -> nat
    decreases s.len(),
{
    if s.len() == 0 {
        0
    } else {
        utf8_len(s.drop_last()) + if (s.last() as u32) < 0x80 {
            1nat
        } else {
            2nat
        }
    }
}

/// A cursor-position report body (`row;col`).
pub open spec fn cursor_report(params: Seq<char>) -> Option<(u16, u16)> {
    let f = text::fields(params, ';');
    if f.len() < 2 {
        None
    } else {
        match (text::number(f[0], 0xffff), text::number(f[1], 0xffff)) {
            (Some(row), Some(col)) => Some((row as u16, col as u16)),
            _ => None,
        }
    }
}

/// The first channel reported stopped among `id, state` pairs.
pub open spec fn first_stopped(f: Seq<Seq<char>>) -> Option<u8>
    decreases f.len(),
{
    if f.len() < 2 {
        None
    } else if f[1] == "0"@ {
        match text::number(f[0], 0xff) {
            Some(id) => Some(id as u8),
            None => None,
        }
    } else {
        first_stopped(f.skip(2))
    }
}

/// The body of an audio status report: `=7` alone, or `=7` and then fields that a
/// `;` sets off. A longer number (`=72`) is another kind of report.
pub open spec fn is_audio_report(params: Seq<char>) -> bool {
    text::begins_with(params, "=7"@) && (params.len() == 2 || params[2] == ';')
}

/// The first channel that an audio status report (`;id;state` pairs behind the
/// `=7`) says has stopped.
pub open spec fn drain_report(params: Seq<char>) -> Option<u8> {
    if is_audio_report(params) {
        first_stopped(text::nonempty(text::fields(params.skip(2), ';')))
    } else {
        None
    }
}

/// Kitty event-type of a CSI body: the colon-suffix of the second `;`-field;
/// a press (1) when it is not there.
pub open spec fn event_type(csi: Seq<char>) -> u8 {
    let f = text::fields(csi, ';');
    if f.len() > 1 && f[1].contains(':') {
        match text::number(text::after(f[1], ':'), 0xff) {
            Some(e) => e as u8,
            None => 1,
        }
    } else {
        1
    }
}

/// The evdev code of a kitty Unicode keysym, for the keys this door cares about
/// (Z/X/Enter/Space and the Esc/Q quit keys).
pub open spec fn evdev_of(keysym: nat) -> Option<u16> {
    if keysym == 122 {
        Some(44)
    } else if keysym == 120 {
        Some(45)
    } else if keysym == 13 {
        Some(28)
    } else if keysym == 32 {
        Some(57)
    } else if keysym == 27 {
        Some(1)
    } else if keysym == 113 {
        Some(16)
    } else {
        None
    }
}

/// The edge of a kitty CSI-u key event (`codepoint ; mods:event`).
pub open spec fn kitty_u_edges(csi: Seq<char>) -> Seq<KeyEdge> {
    match text::number(text::before(text::before(csi, ';'), ':'), 0xffff_ffff) {
        Some(keysym) => match evdev_of(keysym) {
            Some(code) => seq![KeyEdge { code, pressed: event_type(csi) != 3 }],
            None => Seq::empty(),
        },
        None => Seq::empty(),
    }
}

/// evdev code of an arrow by its final character.
pub open spec fn arrow_code(c: char) -> u16 {
    match c {
        'A' => 103,
        'B' => 108,
        'C' => 106,
        _ => 105,
    }
}

/// Edges of a list of evdev codes; what is not a code is skipped.
pub open spec fn code_edges(f: Seq<Seq<char>>, pressed: bool) -> Seq<KeyEdge>
    decreases f.len(),
{
    if f.len() == 0 {
        Seq::empty()
    } else {
        let before = code_edges(f.drop_last(), pressed);
        match text::number(f.last(), 0xffff) {
            Some(code) => before.push(KeyEdge { code: code as u16, pressed }),
            None => before,
        }
    }
}

/// Edges of a physical-key report body (`= Pk;Pk…`); a body without the `=`
/// is no such report.
pub open spec fn physical_edges(csi: Seq<char>, pressed: bool) -> Seq<KeyEdge> {
    if csi.len() > 0 && csi[0] == '=' {
        code_edges(text::fields(csi.skip(1), ';'), pressed)
    } else {
        Seq::empty()
    }
}

/// The color depth that a DECRQSS SGR reply body (between `ESC P` and the ST)
/// gives away. The color probe set FG to an odd 24-bit value; the reply echoes
/// `38;2;...` when the terminal preserved 24-bit or `38;5;N` when it quantized to
/// 256 (some terminals use colon subparams). Only a DECRQSS-shaped reply
/// (contains `$r`) is trusted.
#[verifier::opaque]
pub open spec fn color_readback(body: Seq<char>) -> Option<ColorDepth> {
    if !text::has_part(body, "$r"@) {
        None
    } else if text::has_part(body, "38;5"@) || text::has_part(body, "38:5"@) {
        Some(ColorDepth::C256)
    } else if text::has_part(body, "38;2"@) || text::has_part(body, "38:2"@) {
        Some(ColorDepth::True)
    } else {
        None
    }
}

/// A DCS body completed: classify it and return to ground.
pub open spec fn dcs_finished(d: Decoder) -> Decoder {
    Decoder {
        state: State::Ground,
        dcs: Seq::empty(),
        color_probe: match color_readback(d.dcs) {
            Some(depth) => Some(depth),
            None => d.color_probe,
        },
        ..d
    }
}

/// One byte at ground level.
pub open spec fn ground_step(d: Decoder, b: u8) -> (Decoder, Seq<Key>) {
    let done = Decoder { cr_seen: false, ..d };
    if b == IAC {
        (Decoder { state: State::Iac, ..done }, seq![])
    } else if b == ESC {
        (Decoder { state: State::Esc, ..done }, seq![])
    } else if b == 0x0d {
        (Decoder { cr_seen: true, ..d }, seq![Key::Enter])
    } else if b == 0x0a {
        (done, if d.cr_seen {
            seq![]
        } else {
            seq![Key::Enter]
        })
    } else if b == 0x09 {
        (done, seq![Key::Tab])
    } else if b == 0x08 || b == 0x7f {
        (done, seq![Key::Backspace])
    } else if 0x20 <= b <= 0x7e {
        (done, seq![Key::Char(b as char)])
    } else {
        (done, seq![])
    }
}

/// The final character of a CSI sequence whose parameters are `d.csi`.
#[verifier::opaque]
pub open spec fn csi_final(d: Decoder, c: char) -> (Decoder, Seq<Key>) {
    let g = Decoder { state: State::Ground, ..d };
    if ('A' <= c <= 'D') && d.kitty_active && d.csi.contains(':') {
        // A kitty arrow event carries an event-type after a colon.
        let edge = KeyEdge { code: arrow_code(c), pressed: event_type(d.csi) != 3 };
        (Decoder { key_edges: d.key_edges.push(edge), ..g }, seq![])
    } else {
        match c {
            'A' => (g, seq![Key::Up]),
            'B' => (g, seq![Key::Down]),
            'C' => (g, seq![Key::Right]),
            'D' => (g, seq![Key::Left]),
            'Z' => (g, seq![Key::BackTab]),
            // SyncTERM/CTerm send Page Up as `CSI V` and Page Down as `CSI U`.
            'V' => (g, seq![Key::PageUp]),
            'U' => (g, seq![Key::PageDown]),
            'R' => (Decoder { cursor: cursor_report(d.csi), ..g }, seq![]),
            'n' => (
                match drain_report(d.csi) {
                    Some(ch) => Decoder { audio_drain: Some(ch), ..g },
                    None => g,
                },
                seq![],
            ),
            'c' => (
                if d.csi.len() > 0 && d.csi[0] == '<' {
                    // CTerm CTDA: value 8 advertises physical key reports.
                    Decoder {
                        phys_keys: d.phys_keys || text::fields(d.csi.skip(1), ';').contains("8"@),
                        ..g
                    }
                } else if d.csi.len() > 0 && d.csi[0] == '?' {
                    // Primary DA, the probe barrier.
                    Decoder { da1_seen: true, ..g }
                } else {
                    g
                },
                seq![],
            ),
            'u' => (
                if d.csi.len() > 0 && d.csi[0] == '?' {
                    Decoder { kitty_keys: true, ..g }
                } else if d.kitty_active {
                    Decoder { key_edges: d.key_edges + kitty_u_edges(d.csi), ..g }
                } else {
                    g
                },
                seq![],
            ),
            'K' => (
                Decoder { key_edges: d.key_edges + physical_edges(d.csi, true), ..g },
                seq![],
            ),
            'k' => (
                Decoder { key_edges: d.key_edges + physical_edges(d.csi, false), ..g },
                seq![],
            ),
            // VT edit-keypad; modifier forms keep the same first field.
            '~' => (
                g,
                if text::before(d.csi, ';') == "5"@ {
                    seq![Key::PageUp]
                } else if text::before(d.csi, ';') == "6"@ {
                    seq![Key::PageDown]
                } else {
                    seq![]
                },
            ),
            _ => (g, seq![]),
        }
    }
}

/// One byte of input: the decoder after it, and the keys it completes.
pub open spec fn step(d: Decoder, b: u8) -> (Decoder, Seq<Key>) {
    match d.state {
        State::Ground => ground_step(d, b),
        State::Iac => (
            Decoder {
                state: if WILL <= b <= DONT {
                    State::IacOpt
                } else if b == SB {
                    State::IacSub
                } else {
                    State::Ground
                },
                ..d
            },
            seq![],
        ),
        State::IacOpt => (Decoder { state: State::Ground, ..d }, seq![]),
        State::IacSub => (
            Decoder {
                state: if b == IAC {
                    State::IacSubIac
                } else {
                    State::IacSub
                },
                ..d
            },
            seq![],
        ),
        State::IacSubIac => (
            Decoder {
                state: if b == SE {
                    State::Ground
                } else {
                    State::IacSub
                },
                ..d
            },
            seq![],
        ),
        State::Esc => if b as char == '[' {
            (Decoder { state: State::Csi, csi: Seq::empty(), ..d }, seq![])
        } else if b as char == 'O' {
            (Decoder { state: State::Ss3, ..d }, seq![])
        } else if b as char == 'P' {
            (Decoder { state: State::Dcs, dcs: Seq::empty(), ..d }, seq![])
        } else if b == ESC {
            // The previous ESC was lone; this one is pending now.
            (d, seq![Key::Esc])
        } else {
            let (after, keys) = ground_step(Decoder { state: State::Ground, ..d }, b);
            (after, seq![Key::Esc] + keys)
        },
        State::Csi => if 0x40 <= b <= 0x7e {
            csi_final(d, b as char)
        } else {
            (Decoder { csi: d.csi.push(b as char), ..d }, seq![])
        },
        State::Ss3 => (
            Decoder { state: State::Ground, ..d },
            match b as char {
                'A' => seq![Key::Up],
                'B' => seq![Key::Down],
                'C' => seq![Key::Right],
                'D' => seq![Key::Left],
                _ => seq![],
            },
        ),
        State::Dcs => (
            if b == ESC {
                Decoder { state: State::DcsEsc, ..d }
            } else if b == 0x07 {
                dcs_finished(d)
            } else if utf8_len(d.dcs) < MAX_DCS_LEN {
                Decoder { dcs: d.dcs.push(b as char), ..d }
            } else {
                Decoder { state: State::Ground, dcs: Seq::empty(), ..d }
            },
            seq![],
        ),
        State::DcsEsc => if b as char == '\\' {
            (dcs_finished(d), seq![])
        } else {
            // That ESC was no terminator: finish, and take the byte from ground.
            ground_step(dcs_finished(d), b)
        },
    }
}

/// A whole chunk of input.
pub open spec fn run(d: Decoder, bytes: Seq<u8>) -> (Decoder, Seq<Key>)
    decreases bytes.len(),
{
    if bytes.len() == 0 {
        (d, Seq::empty())
    } else {
        let (before, keys) = run(d, bytes.drop_last());
        let (after, more) = step(before, bytes.last());
        (after, keys + more)
    }
}

/// A poll that brought nothing.
pub open spec fn idled(d: Decoder) -> (Decoder, Option<Key>) {
    match d.state {
        State::Esc => (Decoder { state: State::Ground, ..d }, Some(Key::Esc)),
        State::Dcs | State::DcsEsc => (
            Decoder { state: State::Ground, dcs: Seq::empty(), ..d },
            None,
        ),
        _ => (d, None),
    }
}

pub open spec fn mode_of(d: Decoder) -> KeyboardMode {
    if d.phys_keys {
        KeyboardMode::CtermPhysical
    } else if d.kitty_keys {
        KeyboardMode::Kitty
    } else {
        KeyboardMode::Legacy
    }
}

// ---------------------------------------------------------------------------
// Parsers of report bodies
// ---------------------------------------------------------------------------

/// Classify a DECRQSS SGR reply body; `None` leaves the caller at its truecolor
/// default (conservative, never over-downgrades).
pub fn parse_color_readback(body: &[char]) -> (r: Option<ColorDepth>)
    ensures
        r == color_readback(body@),
{
    proof {
        reveal(color_readback);
    }
    if !text::includes(body, "$r") {
        return None;
    }
    if text::includes(body, "38;5") || text::includes(body, "38:5") {
        Some(ColorDepth::C256)
    } else if text::includes(body, "38;2") || text::includes(body, "38:2") {
        Some(ColorDepth::True)
    } else {
        None
    }
}

/// Parse a CSI cursor-position report body ("row;col") into (row, col).
pub fn parse_cursor(params: &[char]) -> (r: Option<(u16, u16)>)
    ensures
        r == cursor_report(params@),
{
    let f = text::split(params, ';');
    assert(text::texts(f@).len() == f.len());
    if f.len() < 2 {
        return None;
    }
    assert(text::texts(f@)[0] == f@[0]@ && text::texts(f@)[1] == f@[1]@);
    let row = text::parse_number(f[0].as_slice(), 0xffff);
    let col = text::parse_number(f[1].as_slice(), 0xffff);
    match (row, col) {
        (Some(row), Some(col)) => Some((row as u16, col as u16)),
        _ => None,
    }
}

/// Kitty event-type from a CSI body: the colon-suffix of the 2nd `;`-field
/// (`key ; mods:event ; text`). 1=press, 2=repeat, 3=release; default 1.
pub fn kitty_event(csi: &[char]) -> (r: u8)
    ensures
        r == event_type(csi@),
{
    let f = text::split(csi, ';');
    assert(text::texts(f@).len() == f.len());
    if f.len() < 2 {
        return 1;
    }
    assert(text::texts(f@)[1] == f@[1]@);
    match text::text_after(f[1].as_slice(), ':') {
        Some(e) => match text::parse_number(e, 0xff) {
            Some(e) => e as u8,
            None => 1,
        },
        None => 1,
    }
}

/// Map a kitty Unicode keysym to the evdev code space used by the edge decoder.
pub fn kitty_cp_to_evdev(cp: u32) -> (r: Option<u16>)
    ensures
        r == evdev_of(cp as nat),
{
    match cp {
        122 => Some(44),  // z -> Z (A)
        120 => Some(45),  // x -> X (B)
        13 => Some(28),  // Enter (Start)
        32 => Some(57),  // Space (Select)
        27 => Some(1),  // Esc (quit)
        113 => Some(16),  // q (quit)
        _ => None,
    }
}

/// Parse an audio status report body. The terminal answers `CSI = 7 [ ; id ;
/// state ]… n` (state 0 = stopped, 1 = running); the `Update;C=` one-shot fires
/// `=7;ch;0`. Returns the first channel reported stopped, if any.
pub fn parse_audio_drain(params: &[char]) -> (r: Option<u8>)
    ensures
        r == drain_report(params@),
{
    proof {
        reveal_strlit("=7");
    }
    let rest = match text::after_prefix(params, "=7") {
        Some(rest) => rest,
        None => {
            return None;
        },
    };
    // A longer number is another kind of report.
    if rest.len() > 0 && rest[0] != ';' {
        return None;
    }
    let all = text::split(rest, ';');
    let ghost fields = text::texts(all@);
    let mut f: Vec<Vec<char>> = Vec::new();
    assert(text::texts(f@) == Seq::<Seq<char>>::empty());
    let mut i: usize = 0;
    while i < all.len()
        invariant
            i <= all.len(),
            fields == text::texts(all@),
            text::texts(f@) == text::nonempty(fields.take(i as int)),
        decreases all.len() - i,
    {
        assert(fields.take(i + 1).drop_last() == fields.take(i as int));
        assert(fields[i as int] == all@[i as int]@);
        if all[i].len() > 0 {
            let ghost before = text::texts(f@);
            f.push(text::copy_of(all[i].as_slice()));
            assert(text::texts(f@) == before.push(all@[i as int]@));
        }
        i += 1;
    }
    assert(fields.take(i as int) == fields);
    let ghost pairs = text::texts(f@);
    let mut j: usize = 0;
    assert(pairs.skip(0) == pairs);
    while j < f.len() && f.len() - j >= 2
        invariant
            j <= f.len(),
            pairs == text::texts(f@),
            drain_report(params@) == first_stopped(pairs),
            first_stopped(pairs) == first_stopped(pairs.skip(j as int)),
        decreases f.len() - j,
    {
        let ghost here = pairs.skip(j as int);
        assert(here[0] == f@[j as int]@ && here[1] == f@[j + 1]@);
        if text::is_word(f[j + 1].as_slice(), "0") {
            return match text::parse_number(f[j].as_slice(), 0xff) {
                Some(id) => Some(id as u8),
                None => None,
            };
        }
        assert(here.skip(2) == pairs.skip(j + 2));
        j += 2;
    }
    None
}

/// Edges of a physical-key report body.
fn parse_key_edges(csi: &[char], pressed: bool) -> (r: Vec<KeyEdge>)
    ensures
        r@ == physical_edges(csi@, pressed),
{
    let mut out: Vec<KeyEdge> = Vec::new();
    if csi.len() == 0 || csi[0] != '=' {
        return out;
    }
    assert(csi@.subrange(1, csi@.len() as int) == csi@.skip(1));
    let f = text::split(&csi[1..csi.len()], ';');
    let ghost fields = text::texts(f@);
    let mut i: usize = 0;
    while i < f.len()
        invariant
            i <= f.len(),
            fields == text::texts(f@),
            out@ == code_edges(fields.take(i as int), pressed),
        decreases f.len() - i,
    {
        assert(fields.take(i + 1).drop_last() == fields.take(i as int));
        assert(fields[i as int] == f@[i as int]@);
        if let Some(code) = text::parse_number(f[i].as_slice(), 0xffff) {
            out.push(KeyEdge { code: code as u16, pressed });
        }
        i += 1;
    }
    assert(fields.take(i as int) == fields);
    out
}

/// Does any field of the text (after its first character) equal `8`?
fn advertises_physical_keys(csi: &[char]) -> (r: bool)
    requires
        csi@.len() > 0,
    ensures
        r == text::fields(csi@.skip(1), ';').contains("8"@),
{
    assert(csi@.subrange(1, csi@.len() as int) == csi@.skip(1));
    let f = text::split(&csi[1..csi.len()], ';');
    let ghost fields = text::texts(f@);
    let mut i: usize = 0;
    while i < f.len()
        invariant
            i <= f.len(),
            fields == text::texts(f@),
            fields == text::fields(csi@.skip(1), ';'),
            forall|k: int| 0 <= k < i ==> #[trigger] fields[k] != "8"@,
        decreases f.len() - i,
    {
        assert(fields[i as int] == f@[i as int]@);
        if text::is_word(f[i].as_slice(), "8") {
            return true;
        }
        i += 1;
    }
    false
}

/// May a DCS body take another character?
fn dcs_has_room(dcs: &[char]) -> (r: bool)
    ensures
        r == (utf8_len(dcs@) < MAX_DCS_LEN),
{
    let mut n: usize = 0;
    let mut i: usize = 0;
    while i < dcs.len()
        invariant
            i <= dcs.len(),
            n == utf8_len(dcs@.take(i as int)),
            n < MAX_DCS_LEN,
        decreases dcs.len() - i,
    {
        assert(dcs@.take(i + 1).drop_last() == dcs@.take(i as int));
        n += if (dcs[i] as u32) < 0x80 {
            1
        } else {
            2
        };
        i += 1;
        if n >= MAX_DCS_LEN {
            proof {
                lemma_utf8_len_grows(dcs@, i as int);
            }
            return false;
        }
    }
    assert(dcs@.take(i as int) == dcs@);
    true
}

proof fn lemma_utf8_len_grows(s: Seq<char>, i: int)
    requires
        0 <= i <= s.len(),
    ensures
        utf8_len(s.take(i)) <= utf8_len(s),
    decreases s.len() - i,
{
    if i < s.len() {
        assert(s.take(i + 1).drop_last() == s.take(i));
        lemma_utf8_len_grows(s, i + 1);
    } else {
        assert(s.take(i) == s);
    }
}

// ---------------------------------------------------------------------------
// Decoder
// ---------------------------------------------------------------------------

pub struct KeyDecoder {
    state: State,
    cr_seen: bool,
    csi: Vec<char>,
    dcs: Vec<char>,
    cursor: Option<(u16, u16)>,
    audio_drain: Option<u8>,
    phys_keys: bool,
    kitty_keys: bool,
    da1_seen: bool,
    color_probe: Option<ColorDepth>,
    key_edges: Vec<KeyEdge>,
    kitty_active: bool,
}

impl View for KeyDecoder {
    type V = Decoder;

    closed spec fn view(&self) -> Decoder {
        Decoder {
            state: self.state,
            cr_seen: self.cr_seen,
            csi: self.csi@,
            dcs: self.dcs@,
            cursor: self.cursor,
            audio_drain: self.audio_drain,
            phys_keys: self.phys_keys,
            kitty_keys: self.kitty_keys,
            da1_seen: self.da1_seen,
            color_probe: self.color_probe,
            key_edges: self.key_edges@,
            kitty_active: self.kitty_active,
        }
    }
}

impl Default for KeyDecoder {
    fn default() -> (d: Self)
        ensures
            d@ == fresh(),
    {
        KeyDecoder {
            state: State::Ground,
            cr_seen: false,
            csi: Vec::new(),
            dcs: Vec::new(),
            cursor: None,
            audio_drain: None,
            phys_keys: false,
            kitty_keys: false,
            da1_seen: false,
            color_probe: None,
            key_edges: Vec::new(),
            kitty_active: false,
        }
    }
}

impl KeyDecoder {
    pub fn new() -> (d: Self)
        ensures
            d@ == fresh(),
    {
        Self::default()
    }

    /// Decode a chunk of input bytes into zero or more keys.
    pub fn feed(&mut self, bytes: &[u8]) -> (out: Vec<Key>)
        ensures
            (final(self)@, out@) == run(old(self)@, bytes@),
    {
        let mut out: Vec<Key> = Vec::new();
        let mut i: usize = 0;
        while i < bytes.len()
            invariant
                i <= bytes.len(),
                (self@, out@) == run(old(self)@, bytes@.take(i as int)),
            decreases bytes.len() - i,
        {
            assert(bytes@.take(i + 1).drop_last() == bytes@.take(i as int));
            self.step(bytes[i], &mut out);
            i += 1;
        }
        assert(bytes@.take(i as int) == bytes@);
        out
    }

    /// Call when a poll returned no bytes: resolves a lone trailing ESC into the
    /// Esc key (it wasn't the start of an escape sequence after all). Also drops a
    /// dangling DCS whose ST terminator never arrived so the decoder can't wedge
    /// there (a real DECRQSS reply arrives whole).
    pub fn idle(&mut self) -> (key: Option<Key>)
        ensures
            (final(self)@, key) == idled(old(self)@),
    {
        match self.state {
            State::Esc => {
                self.state = State::Ground;
                Some(Key::Esc)
            },
            State::Dcs | State::DcsEsc => {
                self.dcs.clear();
                self.state = State::Ground;
                None
            },
            _ => None,
        }
    }

    /// The color depth resolved from the DECRQSS probe reply, if the terminal
    /// answered. Sticky (a stable capability): safe to read repeatedly.
    pub fn color_probe(&self) -> (r: Option<ColorDepth>)
        ensures
            r == self@.color_probe,
    {
        self.color_probe
    }

    /// Take the most recent cursor-position report (`ESC [ row ; col R`), if the
    /// terminal answered a size probe since the last call.
    pub fn take_cursor(&mut self) -> (r: Option<(u16, u16)>)
        ensures
            r == old(self)@.cursor,
            final(self)@ == (Decoder { cursor: None, ..old(self)@ }),
            final(self)@ == without_cursor(old(self)@),
    {
        let r = self.cursor;
        self.cursor = None;
        r
    }

    /// Take the most recent audio drain report (`CSI = 7 ; ch ; 0 n`): the
    /// channel's FIFO emptied since the last call. Returns the channel number.
    pub fn take_audio_drain(&mut self) -> (r: Option<u8>)
        ensures
            r == old(self)@.audio_drain,
            final(self)@ == (Decoder { audio_drain: None, ..old(self)@ }),
            final(self)@ == without_drain(old(self)@),
    {
        let r = self.audio_drain;
        self.audio_drain = None;
        r
    }

    /// The keyboard protocol resolved from the capability probes. CTerm physical
    /// keys win over kitty if a terminal somehow advertised both.
    pub fn keyboard_mode(&self) -> (r: KeyboardMode)
        ensures
            r == mode_of(self@),
    {
        if self.phys_keys {
            KeyboardMode::CtermPhysical
        } else if self.kitty_keys {
            KeyboardMode::Kitty
        } else {
            KeyboardMode::Legacy
        }
    }

    /// True once the Primary DA reply (the probe barrier) has arrived, so the
    /// capability probes need not be re-sent with further size probes.
    pub fn caps_resolved(&self) -> (r: bool)
        ensures
            r == self@.da1_seen,
    {
        self.da1_seen
    }

    /// Parse the evdev codes from a physical-key report body (`= Pk;Pk…`) into
    /// edges. Bodies without the `=` prefix aren't physical reports.
    fn push_key_edges(&mut self, pressed: bool)
        ensures
            final(self)@ == (Decoder {
                key_edges: old(self)@.key_edges + physical_edges(old(self)@.csi, pressed),
                ..old(self)@
            }),
    {
        let edges = parse_key_edges(self.csi.as_slice(), pressed);
        self.key_edges.extend_from_slice(edges.as_slice());
        assert(self.key_edges@ == old(self).key_edges@ + edges@);
    }

    /// Drain the physical key edges decoded since the last call (edge modes).
    pub fn take_key_edges(&mut self) -> (r: Vec<KeyEdge>)
        ensures
            r@ == old(self)@.key_edges,
            final(self)@ == (Decoder { key_edges: Seq::empty(), ..old(self)@ }),
            final(self)@ == without_edges(old(self)@),
    {
        let mut edges: Vec<KeyEdge> = Vec::new();
        std::mem::swap(&mut edges, &mut self.key_edges);
        edges
    }

    /// Enable/disable kitty event decoding (set when the door pushes the kitty
    /// keyboard flags). While on, CSI-u and arrow events become key edges instead
    /// of translated keys.
    pub fn set_kitty_active(&mut self, on: bool)
        ensures
            final(self)@ == (Decoder { kitty_active: on, ..old(self)@ }),
            final(self)@ == with_kitty(old(self)@, on),
    {
        self.kitty_active = on;
    }

    /// Push an edge from a kitty CSI-u key event (`CSI codepoint ; mods:event u`),
    /// normalising the Unicode keysym to the same evdev code space as CTerm.
    fn push_kitty_u(&mut self)
        ensures
            final(self)@ == (Decoder {
                key_edges: old(self)@.key_edges + kitty_u_edges(old(self)@.csi),
                ..old(self)@
            }),
    {
        let first = text::text_before(self.csi.as_slice(), ';');
        let number = text::parse_number(text::text_before(first, ':'), 0xffff_ffff);
        if let Some(cp) = number {
            if let Some(code) = kitty_cp_to_evdev(cp as u32) {
                let pressed = kitty_event(self.csi.as_slice()) != 3;
                self.key_edges.push(KeyEdge { code, pressed });
            }
        }
    }

    /// Push an edge from a kitty arrow event (final byte `A`..`D`).
    fn push_kitty_arrow(&mut self, c: char)
        ensures
            final(self)@ == (Decoder {
                key_edges: old(self)@.key_edges.push(
                    KeyEdge { code: arrow_code(c), pressed: event_type(old(self)@.csi) != 3 },
                ),
                ..old(self)@
            }),
    {
        let code: u16 = match c {
            'A' => 103,  // up
            'B' => 108,  // down
            'C' => 106,  // right
            _ => 105,  // left (D)
        };
        let pressed = kitty_event(self.csi.as_slice()) != 3;
        self.key_edges.push(KeyEdge { code, pressed });
    }

    /// A DCS body completed (ST or BEL). Classify it as a color-probe reply and
    /// return to ground. The body never surfaces as keystrokes.
    fn finish_dcs(&mut self)
        ensures
            final(self)@ == dcs_finished(old(self)@),
    {
        if let Some(depth) = parse_color_readback(self.dcs.as_slice()) {
            self.color_probe = Some(depth);
        }
        self.dcs.clear();
        self.state = State::Ground;
    }

    /// The final byte of a CSI sequence.
    #[verifier::rlimit(40)]
    fn finish_csi(&mut self, c: char, out: &mut Vec<Key>)
        ensures
            final(self)@ == csi_final(old(self)@, c).0,
            final(out)@ == old(out)@ + csi_final(old(self)@, c).1,
    {
        proof {
            reveal(csi_final);
            text::lemma_contains(self.csi@, ':');
        }
        let colon = text::position(self.csi.as_slice(), ':') < self.csi.len();
        if 'A' <= c && c <= 'D' && self.kitty_active && colon {
            self.push_kitty_arrow(c);
        } else {
            match c {
                'A' => out.push(Key::Up),
                'B' => out.push(Key::Down),
                'C' => out.push(Key::Right),
                'D' => out.push(Key::Left),
                'Z' => out.push(Key::BackTab),
                'V' => out.push(Key::PageUp),
                'U' => out.push(Key::PageDown),
                'R' => {
                    self.cursor = parse_cursor(self.csi.as_slice());
                },
                'n' => {
                    if let Some(ch) = parse_audio_drain(self.csi.as_slice()) {
                        self.audio_drain = Some(ch);
                    }
                },
                'c' => {
                    if self.csi.len() > 0 && self.csi[0] == '<' {
                        if advertises_physical_keys(self.csi.as_slice()) {
                            self.phys_keys = true;
                        }
                    } else if self.csi.len() > 0 && self.csi[0] == '?' {
                        self.da1_seen = true;
                    }
                },
                'u' => {
                    if self.csi.len() > 0 && self.csi[0] == '?' {
                        self.kitty_keys = true;
                    } else if self.kitty_active {
                        self.push_kitty_u();
                    }
                },
                'K' => self.push_key_edges(true),
                'k' => self.push_key_edges(false),
                '~' => {
                    let first = text::text_before(self.csi.as_slice(), ';');
                    if text::is_word(first, "5") {
                        out.push(Key::PageUp);
                    } else if text::is_word(first, "6") {
                        out.push(Key::PageDown);
                    }
                },
                _ => {},
            }
        }
        self.state = State::Ground;
    }

    fn step(&mut self, b: u8, out: &mut Vec<Key>)
        ensures
            final(self)@ == step(old(self)@, b).0,
            final(out)@ == old(out)@ + step(old(self)@, b).1,
    {
        match self.state {
            State::Iac => {
                self.state = if WILL <= b && b <= DONT {
                    State::IacOpt
                } else if b == SB {
                    State::IacSub
                } else {
                    // an escaped 0xFF data byte, or a standalone command
                    State::Ground
                };
            },
            State::IacOpt => {
                self.state = State::Ground;
            },
            State::IacSub => {
                if b == IAC {
                    self.state = State::IacSubIac;
                }
            },
            State::IacSubIac => {
                self.state = if b == SE {
                    State::Ground
                } else {
                    State::IacSub
                };
            },
            State::Esc => {
                if b as char == '[' {
                    self.csi.clear();
                    self.state = State::Csi;
                } else if b as char == 'O' {
                    self.state = State::Ss3;
                } else if b as char == 'P' {
                    self.dcs.clear();
                    self.state = State::Dcs;
                } else if b == ESC {
                    out.push(Key::Esc);
                } else {
                    out.push(Key::Esc);
                    self.state = State::Ground;
                    self.ground(b, out);
                }
            },
            State::Csi => {
                if 0x40 <= b && b <= 0x7e {
                    self.finish_csi(b as char, out);
                } else {
                    self.csi.push(b as char);
                }
            },
            State::Ss3 => {
                match b as char {
                    'A' => out.push(Key::Up),
                    'B' => out.push(Key::Down),
                    'C' => out.push(Key::Right),
                    'D' => out.push(Key::Left),
                    _ => {},
                }
                self.state = State::Ground;
            },
            State::Dcs => {
                if b == ESC {
                    self.state = State::DcsEsc;
                } else if b == 0x07 {
                    self.finish_dcs();
                } else if dcs_has_room(self.dcs.as_slice()) {
                    self.dcs.push(b as char);
                } else {
                    self.dcs.clear();
                    self.state = State::Ground;
                }
            },
            State::DcsEsc => {
                self.finish_dcs();
                if b as char != '\\' {
                    self.ground(b, out);
                }
            },
            State::Ground => self.ground(b, out),
        }
    }

    fn ground(&mut self, b: u8, out: &mut Vec<Key>)
        ensures
            final(self)@ == ground_step(old(self)@, b).0,
            final(out)@ == old(out)@ + ground_step(old(self)@, b).1,
    {
        if b == 0x0d {
            out.push(Key::Enter);
            self.cr_seen = true;
            return;
        }
        if b == IAC {
            self.state = State::Iac;
        } else if b == ESC {
            self.state = State::Esc;
        } else if b == 0x0a {
            if !self.cr_seen {
                out.push(Key::Enter);
            }
        } else if b == 0x09 {
            out.push(Key::Tab);
        } else if b == 0x08 || b == 0x7f {
            out.push(Key::Backspace);
        } else if 0x20 <= b && b <= 0x7e {
            out.push(Key::Char(b as char));
        }
        self.cr_seen = false;
    }
}

// ---------------------------------------------------------------------------
// Input side of the door
// ---------------------------------------------------------------------------

/// What waiting for the menu's next event came to: a keypress, the terminal's
/// (rows, cols) from a size-probe reply, or an idle tick (about a second of no
/// input).
#[derive(Clone, Copy, PartialEq, Eq, Debug, Structural)]
pub enum MenuEvent {
    Key(Key),
    Resize(u16, u16),
    Idle,
}

/// Empty polls, 15 ms apart, after which a wait surfaces an idle tick, so that
/// the menu can re-probe and pick up a resize that occurred meanwhile.
pub const IDLE_POLLS: u32 = 66;

/// Empty polls after which a lone ESC counts as the Esc key.
pub const ESC_POLLS: u32 = 2;

/// One poll of a wait that has seen `empties` empty polls in a row: the decoder
/// after it, the event that ends the wait (if any), and the new count.
pub open spec fn waited(d: Decoder, bytes: Seq<u8>, empties: u32) -> (
    Decoder,
    Option<MenuEvent>,
    u32,
) {
    if bytes.len() > 0 {
        let (after, keys) = run(d, bytes);
        if keys.len() > 0 {
            (after, Some(MenuEvent::Key(keys[0])), 0)
        } else {
            let (rest, event) = resized(after);
            (rest, event, 0)
        }
    } else {
        let n = (empties + 1) as u32;
        let (after, key) = if n >= ESC_POLLS {
            idled(d)
        } else {
            (d, None)
        };
        match key {
            Some(k) => (after, Some(MenuEvent::Key(k)), n),
            None => (
                after,
                if n >= IDLE_POLLS {
                    Some(MenuEvent::Idle)
                } else {
                    None
                },
                n,
            ),
        }
    }
}

/// A size report that has arrived is handed out once.
pub open spec fn resized(d: Decoder) -> (Decoder, Option<MenuEvent>) {
    (
        Decoder { cursor: None, ..d },
        match d.cursor {
            Some((rows, cols)) => Some(MenuEvent::Resize(rows, cols)),
            None => None,
        },
    )
}

/// What a poll makes of the bytes that a non-blocking read brought; a pending
/// lone-ESC is resolved when nothing arrived.
pub open spec fn polled(d: Decoder, bytes: Seq<u8>) -> (Decoder, Seq<Key>) {
    if bytes.len() > 0 {
        run(d, bytes)
    } else {
        (
            idled(d).0,
            match idled(d).1 {
                Some(key) => seq![key],
                None => seq![],
            },
        )
    }
}

/// Decodes the bytes that a poll of the terminal brought, the input side of the
/// door.
pub struct Input {
    decoder: KeyDecoder,
}

impl View for Input {
    type V = Decoder;

    closed spec fn view(&self) -> Decoder {
        self.decoder@
    }
}

impl Default for Input {
    fn default() -> (r: Self)
        ensures
            r@ == fresh(),
    {
        Input { decoder: KeyDecoder::new() }
    }
}

impl Input {
    pub fn new() -> (r: Self)
        ensures
            r@ == fresh(),
    {
        Self::default()
    }

    /// Decode what a non-blocking read brought. Resolves a pending lone-ESC into
    /// Esc when nothing arrived.
    pub fn poll(&mut self, bytes: &[u8]) -> (keys: Vec<Key>)
        ensures
            (final(self)@, keys@) == polled(old(self)@, bytes@),
    {
        if bytes.len() == 0 {
            let mut keys: Vec<Key> = Vec::new();
            if let Some(key) = self.decoder.idle() {
                keys.push(key);
            }
            assert((self@, keys@) == polled(old(self)@, bytes@));
            return keys;
        }
        self.decoder.feed(bytes)
    }

    /// A size-probe reply that arrived before the wait began.
    pub fn resize_event(&mut self) -> (event: Option<MenuEvent>)
        ensures
            (final(self)@, event) == resized(old(self)@),
    {
        match self.decoder.take_cursor() {
            Some((rows, cols)) => Some(MenuEvent::Resize(rows, cols)),
            None => None,
        }
    }

    /// One poll of a wait for the menu's next event: a key, or the terminal's
    /// answer to a size probe, so that the menu can re-layout to the real screen
    /// height without waiting for a keystroke. `empties` counts the empty polls in
    /// a row (a wait starts at 0); the second result is the new count.
    pub fn wait_event(&mut self, bytes: &[u8], empties: u32) -> (r: (Option<MenuEvent>, u32))
        requires
            empties < IDLE_POLLS,
        ensures
            (final(self)@, r.0, r.1) == waited(old(self)@, bytes@, empties),
            r.0 is None ==> r.1 < IDLE_POLLS,
    {
        if bytes.len() > 0 {
            let keys = self.decoder.feed(bytes);
            if keys.len() > 0 {
                return (Some(MenuEvent::Key(keys[0])), 0);
            }
            return (self.resize_event(), 0);
        }
        let n: u32 = empties + 1;
        if n >= ESC_POLLS {
            if let Some(k) = self.decoder.idle() {
                return (Some(MenuEvent::Key(k)), n);
            }
        }
        if n >= IDLE_POLLS {
            return (Some(MenuEvent::Idle), n);
        }
        (None, n)
    }

    pub fn take_cursor(&mut self) -> (r: Option<(u16, u16)>)
        ensures
            r == old(self)@.cursor,
            final(self)@ == (Decoder { cursor: None, ..old(self)@ }),
            final(self)@ == without_cursor(old(self)@),
    {
        self.decoder.take_cursor()
    }

    /// Take the most recent audio drain report, if the terminal sent one.
    pub fn take_audio_drain(&mut self) -> (r: Option<u8>)
        ensures
            r == old(self)@.audio_drain,
            final(self)@ == (Decoder { audio_drain: None, ..old(self)@ }),
            final(self)@ == without_drain(old(self)@),
    {
        self.decoder.take_audio_drain()
    }

    /// The keyboard protocol resolved from the startup capability probes.
    pub fn keyboard_mode(&self) -> (r: KeyboardMode)
        ensures
            r == mode_of(self@),
    {
        self.decoder.keyboard_mode()
    }

    /// True once detection is complete (Primary DA barrier seen): stop folding
    /// the capability queries into subsequent size probes.
    pub fn caps_resolved(&self) -> (r: bool)
        ensures
            r == self@.da1_seen,
    {
        self.decoder.caps_resolved()
    }

    /// Color depth resolved from the DECRQSS probe reply, if the terminal answered
    /// (sticky; `None` means it stayed silent: the caller keeps its truecolor
    /// default).
    pub fn color_probe(&self) -> (r: Option<ColorDepth>)
        ensures
            r == self@.color_probe,
    {
        self.decoder.color_probe()
    }

    /// Drain physical key edges decoded since the last call (edge modes).
    pub fn take_key_edges(&mut self) -> (r: Vec<KeyEdge>)
        ensures
            r@ == old(self)@.key_edges,
            final(self)@ == (Decoder { key_edges: Seq::empty(), ..old(self)@ }),
            final(self)@ == without_edges(old(self)@),
    {
        self.decoder.take_key_edges()
    }

    /// Enable/disable kitty event decoding (set when the door pushes the kitty
    /// keyboard flags).
    pub fn set_kitty_active(&mut self, on: bool)
        ensures
            final(self)@ == (Decoder { kitty_active: on, ..old(self)@ }),
            final(self)@ == with_kitty(old(self)@, on),
    {
        self.decoder.set_kitty_active(on);
    }
}

// ---------------------------------------------------------------------------
// Laws
// ---------------------------------------------------------------------------

/// How the bytes are cut into reads makes no difference: feeding two chunks is
/// feeding their concatenation.
pub proof fn law_feed_splits(d: Decoder, a: Seq<u8>, b: Seq<u8>)
    ensures
        run(d, a + b).0 == run(run(d, a).0, b).0,
        run(d, a + b).1 == run(d, a).1 + run(run(d, a).0, b).1,
    decreases b.len(),
{
    if b.len() == 0 {
        assert(a + b == a);
        assert(run(d, a).1 + Seq::<Key>::empty() == run(d, a).1);
    } else {
        law_feed_splits(d, a, b.drop_last());
        assert((a + b).drop_last() == a + b.drop_last());
        let k = run(d, a).1;
        let l = run(run(d, a).0, b.drop_last()).1;
        let m = step(run(run(d, a).0, b.drop_last()).0, b.last()).1;
        assert(k + l + m == k + (l + m));
    }
}

proof fn lemma_run_one(d: Decoder, b: u8)
    ensures
        run(d, seq![b]) == step(d, b),
{
    assert(seq![b].drop_last() == Seq::<u8>::empty());
    assert(run(d, Seq::<u8>::empty()) == (d, Seq::<Key>::empty()));
    assert(Seq::<Key>::empty() + step(d, b).1 == step(d, b).1);
}

proof fn lemma_run_two(d: Decoder, a: u8, b: u8)
    ensures
        run(d, seq![a, b]).0 == step(step(d, a).0, b).0,
        run(d, seq![a, b]).1 == step(d, a).1 + step(step(d, a).0, b).1,
{
    assert(seq![a, b] == seq![a] + seq![b]);
    lemma_run_one(d, a);
    lemma_run_one(step(d, a).0, b);
    law_feed_splits(d, seq![a], seq![b]);
}

/// Printable text at ground level comes out as itself.
pub proof fn law_printable_text(d: Decoder, bytes: Seq<u8>)
    requires
        d.state == State::Ground,
        forall|i: int| 0 <= i < bytes.len() ==> 0x20 <= #[trigger] bytes[i] <= 0x7e,
    ensures
        run(d, bytes).1 == bytes.map_values(|b: u8| Key::Char(b as char)),
        run(d, bytes).0 == (Decoder { cr_seen: d.cr_seen && bytes.len() == 0, ..d }),
    decreases bytes.len(),
{
    if bytes.len() > 0 {
        let head = bytes.drop_last();
        assert forall|i: int| 0 <= i < head.len() implies 0x20 <= #[trigger] head[i] <= 0x7e by {
            assert(head[i] == bytes[i]);
        }
        law_printable_text(d, head);
        assert(0x20 <= bytes[bytes.len() - 1] <= 0x7e);
        assert(bytes.map_values(|b: u8| Key::Char(b as char)) == head.map_values(
            |b: u8| Key::Char(b as char),
        ).push(Key::Char(bytes.last() as char)));
    }
}

/// The bytes as characters, one each.
pub open spec fn latin1(bytes: Seq<u8>) -> Seq<char> {
    bytes.map_values(|b: u8| b as char)
}

/// A byte that does not end a CSI sequence.
pub open spec fn is_parameter(b: u8) -> bool {
    !(0x40 <= b <= 0x7e)
}

proof fn lemma_csi_parameters(d: Decoder, body: Seq<u8>)
    requires
        d.state == State::Csi,
        forall|i: int| 0 <= i < body.len() ==> is_parameter(#[trigger] body[i]),
    ensures
        run(d, body) == (Decoder { csi: d.csi + latin1(body), ..d }, Seq::<Key>::empty()),
    decreases body.len(),
{
    if body.len() == 0 {
        assert(d.csi + latin1(body) == d.csi);
    } else {
        let head = body.drop_last();
        assert forall|i: int| 0 <= i < head.len() implies is_parameter(#[trigger] head[i]) by {
            assert(head[i] == body[i]);
        }
        lemma_csi_parameters(d, head);
        assert(is_parameter(body[body.len() - 1]));
        assert(d.csi + latin1(body) == (d.csi + latin1(head)).push(body.last() as char));
    }
}

/// The bytes of `ESC [ body last`.
pub open spec fn csi_bytes(body: Seq<u8>, last: char) -> Seq<u8> {
    seq![ESC, '[' as u8] + body + seq![last as u8]
}

/// A control sequence at ground level is taken as a whole: its parameters are
/// what stood between the introducer and the final byte.
pub proof fn law_control_sequence(d: Decoder, body: Seq<u8>, last: char)
    requires
        d.state == State::Ground,
        forall|i: int| 0 <= i < body.len() ==> is_parameter(#[trigger] body[i]),
        '@' <= last <= '~',
    ensures
        run(d, csi_bytes(body, last)) == csi_final(
            Decoder { state: State::Csi, cr_seen: false, csi: latin1(body), ..d },
            last,
        ),
{
    let esc = Decoder { state: State::Esc, cr_seen: false, ..d };
    let open = Decoder { state: State::Csi, csi: Seq::empty(), ..esc };
    let full = Decoder { csi: latin1(body), ..open };
    let intro = seq![ESC, '[' as u8];
    lemma_run_two(d, ESC, '[' as u8);
    assert(run(d, intro).1 == Seq::<Key>::empty());
    law_feed_splits(d, intro, body);
    lemma_csi_parameters(open, body);
    assert(Seq::<char>::empty() + latin1(body) == latin1(body));
    law_feed_splits(d, intro + body, seq![last as u8]);
    lemma_run_one(full, last as u8);
    assert((last as u8) as char == last);
    let keys = csi_final(full, last).1;
    assert(Seq::<Key>::empty() + keys == keys);
    assert(run(d, intro + body).1 == Seq::<Key>::empty());
}

/// Probe replies and physical key reports never surface as keystrokes, whatever
/// their parameters, and leave the decoder at ground level.
pub proof fn law_reports_are_not_keys(d: Decoder, body: Seq<u8>, last: char)
    requires
        d.state == State::Ground,
        forall|i: int| 0 <= i < body.len() ==> is_parameter(#[trigger] body[i]),
        last == 'R' || last == 'n' || last == 'c' || last == 'u' || last == 'K' || last == 'k',
    ensures
        run(d, csi_bytes(body, last)).1 == Seq::<Key>::empty(),
        run(d, csi_bytes(body, last)).0.state == State::Ground,
{
    reveal(csi_final);
    law_control_sequence(d, body, last);
}

proof fn lemma_ascii_bytes(s: Seq<char>)
    requires
        forall|i: int| 0 <= i < s.len() ==> #[trigger] s[i] < '@',
    ensures
        latin1(text::bytes_of(s)) == s,
        forall|i: int| 0 <= i < s.len() ==> is_parameter(#[trigger] text::bytes_of(s)[i]),
{
    assert forall|i: int| 0 <= i < s.len() implies latin1(text::bytes_of(s))[i] == s[i] by {
        lemma_ascii_char(s[i]);
    }
    assert forall|i: int| 0 <= i < s.len() implies is_parameter(
        #[trigger] text::bytes_of(s)[i],
    ) by {
        lemma_ascii_char(s[i]);
    }
}

proof fn lemma_ascii_char(c: char)
    requires
        c < '\u{80}',
    ensures
        (c as u8) as char == c,
        c as u8 == c as u32,
{
}

proof fn lemma_decimal_is_low(n: nat)
    ensures
        forall|i: int|
            0 <= i < text::decimal(n).len() ==> #[trigger] text::decimal(n)[i] < '@',
        !text::decimal(n).contains(';'),
        text::decimal(n).len() > 0,
{
    text::lemma_decimal(n);
    text::lemma_digits_without(text::decimal(n), ';');
    assert forall|i: int| 0 <= i < text::decimal(n).len() implies #[trigger] text::decimal(n)[i]
        < '@' by {
        assert(text::is_digit(text::decimal(n)[i]));
    }
}

/// The terminal's answer to a size probe (`ESC [ row ; col R`) is captured as
/// the cursor report, and is no key.
pub proof fn law_cursor_report_is_captured(d: Decoder, row: u16, col: u16)
    requires
        d.state == State::Ground,
    ensures
        ({
            let body = text::decimal(row as nat) + seq![';'] + text::decimal(col as nat);
            run(d, csi_bytes(text::bytes_of(body), 'R')) == (
                Decoder { cr_seen: false, csi: body, cursor: Some((row, col)), ..d },
                Seq::<Key>::empty(),
            )
        }),
{
    let r = text::decimal(row as nat);
    let c = text::decimal(col as nat);
    let body = r + seq![';'] + c;
    lemma_decimal_is_low(row as nat);
    lemma_decimal_is_low(col as nat);
    lemma_ascii_bytes(body);
    reveal(csi_final);
    law_control_sequence(d, text::bytes_of(body), 'R');
    text::lemma_fields_cons(r, ';', c);
    text::lemma_single_field(c, ';');
    assert(text::fields(body, ';') == seq![r, c]);
    text::lemma_number_of_decimal(row as nat, 0xffff);
    text::lemma_number_of_decimal(col as nat, 0xffff);
}

/// The drain report of an audio channel (`ESC [ = 7 ; ch ; 0 n`) is captured, and
/// is no key.
pub proof fn law_audio_drain_is_captured(d: Decoder, ch: u8)
    requires
        d.state == State::Ground,
    ensures
        ({
            let body = "=7;"@ + text::decimal(ch as nat) + ";0"@;
            run(d, csi_bytes(text::bytes_of(body), 'n')) == (
                Decoder { cr_seen: false, csi: body, audio_drain: Some(ch), ..d },
                Seq::<Key>::empty(),
            )
        }),
{
    reveal_strlit("=7;");
    reveal_strlit("=7");
    reveal_strlit(";0");
    reveal_strlit("0");
    let id = text::decimal(ch as nat);
    let body = "=7;"@ + id + ";0"@;
    lemma_decimal_is_low(ch as nat);
    lemma_ascii_bytes(body);
    reveal(csi_final);
    law_control_sequence(d, text::bytes_of(body), 'n');
    assert(body.take(2) == "=7"@);
    let none = Seq::<char>::empty();
    let zero = seq!['0'];
    assert("0"@ == zero);
    assert(body.skip(2) == none + seq![';'] + (id + seq![';'] + zero));
    text::lemma_fields_cons(none, ';', id + seq![';'] + zero);
    text::lemma_fields_cons(id, ';', zero);
    assert(!zero.contains(';'));
    text::lemma_single_field(zero, ';');
    let f = seq![none, id, zero];
    assert(text::fields(body.skip(2), ';') == f);
    assert(text::nonempty(f) == seq![id, zero]) by {
        assert(f.drop_last() == seq![none, id]);
        assert(f.drop_last().drop_last() == seq![none]);
        assert(f.drop_last().drop_last().drop_last() == Seq::<Seq<char>>::empty());
        reveal_with_fuel(text::nonempty, 4);
        assert(seq![none].drop_last() == Seq::<Seq<char>>::empty());
        assert(text::nonempty(seq![none]) == Seq::<Seq<char>>::empty());
        assert(seq![none, id].drop_last() == seq![none]);
        assert(text::nonempty(seq![none, id]) == seq![id]);
    }
    text::lemma_number_of_decimal(ch as nat, 0xff);
}

/// A status report of another kind (`ESC [ = 7 2 ; 0 n`: its number only begins
/// with a 7) is no drain report and no key: a captured drain stays as it was.
pub proof fn law_other_report_is_no_drain(d: Decoder, rest: Seq<char>)
    requires
        d.state == State::Ground,
        rest.len() > 0,
        rest[0] != ';',
        forall|i: int| 0 <= i < rest.len() ==> 0x20 <= (#[trigger] rest[i]) as int <= 0x3f,
    ensures
        ({
            let body = "=7"@ + rest;
            &&& drain_report(body) is None
            &&& run(d, csi_bytes(text::bytes_of(body), 'n')) == (
                Decoder { cr_seen: false, csi: body, ..d },
                Seq::<Key>::empty(),
            )
        }),
{
    reveal_strlit("=7");
    let body = "=7"@ + rest;
    assert forall|i: int| 0 <= i < body.len() implies 0x20 <= (#[trigger] body[i]) as int
        <= 0x3f by {
        if i >= 2 {
            assert(body[i] == rest[i - 2]);
        }
    }
    lemma_ascii_bytes(body);
    reveal(csi_final);
    law_control_sequence(d, text::bytes_of(body), 'n');
}

/// A physical key report of one key gives exactly one edge, with its code and
/// direction, and no key.
pub proof fn law_physical_report_is_one_edge(d: Decoder, code: u16, pressed: bool)
    requires
        d.state == State::Ground,
    ensures
        ({
            let body = seq!['='] + text::decimal(code as nat);
            let last = if pressed {
                'K'
            } else {
                'k'
            };
            run(d, csi_bytes(text::bytes_of(body), last)) == (
                Decoder {
                    cr_seen: false,
                    csi: body,
                    key_edges: d.key_edges.push(KeyEdge { code, pressed }),
                    ..d
                },
                Seq::<Key>::empty(),
            )
        }),
{
    let c = text::decimal(code as nat);
    let body = seq!['='] + c;
    let last = if pressed {
        'K'
    } else {
        'k'
    };
    lemma_decimal_is_low(code as nat);
    lemma_ascii_bytes(body);
    reveal(csi_final);
    law_control_sequence(d, text::bytes_of(body), last);
    assert(body.skip(1) == c);
    text::lemma_single_field(c, ';');
    text::lemma_number_of_decimal(code as nat, 0xffff);
    let edge = KeyEdge { code, pressed };
    assert(seq![c].drop_last() == Seq::<Seq<char>>::empty());
    assert(code_edges(Seq::<Seq<char>>::empty(), pressed) == Seq::<KeyEdge>::empty());
    assert(code_edges(seq![c], pressed) == Seq::<KeyEdge>::empty().push(edge));
    assert(d.key_edges + Seq::<KeyEdge>::empty().push(edge) == d.key_edges.push(edge));
}

proof fn lemma_dcs_body(d: Decoder, body: Seq<u8>)
    requires
        d.state == State::Dcs,
        d.dcs == Seq::<char>::empty(),
        forall|i: int| 0 <= i < body.len() ==> #[trigger] body[i] != ESC && body[i] != 7,
        utf8_len(latin1(body)) <= MAX_DCS_LEN,
    ensures
        run(d, body) == (Decoder { dcs: latin1(body), ..d }, Seq::<Key>::empty()),
    decreases body.len(),
{
    if body.len() == 0 {
        assert(latin1(body) == Seq::<char>::empty());
    } else {
        let head = body.drop_last();
        assert forall|i: int| 0 <= i < head.len() implies #[trigger] head[i] != ESC && head[i]
            != 7 by {
            assert(head[i] == body[i]);
        }
        assert(latin1(body) == latin1(head).push(body.last() as char));
        assert(latin1(body).drop_last() == latin1(head));
        assert(body[body.len() - 1] != ESC);
        lemma_dcs_body(d, head);
    }
}

/// A device-control string that ends (by `ESC \`) before it outgrows the buffer
/// never surfaces as keystrokes: it only settles the color probe, as the reply's
/// text says.
pub proof fn law_color_reply_settles_the_probe(d: Decoder, body: Seq<u8>)
    requires
        d.state == State::Ground,
        forall|i: int| 0 <= i < body.len() ==> #[trigger] body[i] != ESC && body[i] != 7,
        utf8_len(latin1(body)) <= MAX_DCS_LEN,
    ensures
        run(d, seq![ESC, 'P' as u8] + body + seq![ESC, '\\' as u8]) == (
            Decoder {
                cr_seen: false,
                dcs: Seq::empty(),
                color_probe: match color_readback(latin1(body)) {
                    Some(depth) => Some(depth),
                    None => d.color_probe,
                },
                ..d
            },
            Seq::<Key>::empty(),
        ),
{
    let none = Seq::<Key>::empty();
    let open = Decoder { state: State::Dcs, cr_seen: false, dcs: Seq::empty(), ..d };
    let full = Decoder { dcs: latin1(body), ..open };
    let intro = seq![ESC, 'P' as u8];
    let end = seq![ESC, '\\' as u8];
    let closed = dcs_finished(full);
    lemma_dcs_intro(d);
    lemma_dcs_body(open, body);
    law_feed_splits(d, intro, body);
    assert(none + none == none);
    assert(run(d, intro + body) == (full, none));
    lemma_dcs_end(full);
    law_feed_splits(d, intro + body, end);
    assert(run(d, intro + body + end) == (closed, none));
    assert(closed.dcs == Seq::<char>::empty());
}

proof fn lemma_dcs_intro(d: Decoder)
    requires
        d.state == State::Ground,
    ensures
        run(d, seq![ESC, 'P' as u8]) == (
            Decoder { state: State::Dcs, cr_seen: false, dcs: Seq::empty(), ..d },
            Seq::<Key>::empty(),
        ),
{
    lemma_run_two(d, ESC, 'P' as u8);
    assert(Seq::<Key>::empty() + Seq::<Key>::empty() == Seq::<Key>::empty());
}

proof fn lemma_dcs_end(d: Decoder)
    requires
        d.state == State::Dcs,
    ensures
        run(d, seq![ESC, '\\' as u8]) == (dcs_finished(d), Seq::<Key>::empty()),
{
    let last = Decoder { state: State::DcsEsc, ..d };
    lemma_run_two(d, ESC, '\\' as u8);
    assert(Seq::<Key>::empty() + Seq::<Key>::empty() == Seq::<Key>::empty());
    assert(dcs_finished(last) == dcs_finished(d));
}

/// A telnet option negotiation is stripped.
pub proof fn law_telnet_option_is_stripped(d: Decoder, verb: u8, option: u8)
    requires
        d.state == State::Ground,
        verb == WILL || verb == WONT || verb == DO || verb == DONT,
    ensures
        run(d, seq![IAC, verb, option]) == (
            Decoder { cr_seen: false, ..d },
            Seq::<Key>::empty(),
        ),
{
    reveal_with_fuel(run, 4);
    let s = seq![IAC, verb, option];
    assert(s.drop_last() == seq![IAC, verb]);
    assert(seq![IAC, verb].drop_last() == seq![IAC]);
    assert(seq![IAC].drop_last() == Seq::<u8>::empty());
}

proof fn lemma_subnegotiation_body(d: Decoder, body: Seq<u8>)
    requires
        d.state == State::IacSub,
        !body.contains(IAC),
    ensures
        run(d, body) == (d, Seq::<Key>::empty()),
    decreases body.len(),
{
    if body.len() > 0 {
        let head = body.drop_last();
        assert(body.contains(body[body.len() - 1]));
        assert forall|i: int| 0 <= i < head.len() implies head[i] != IAC by {
            assert(body.contains(body[i]));
        }
        lemma_subnegotiation_body(d, head);
    }
}

/// A telnet subnegotiation is stripped, whatever it carries.
pub proof fn law_telnet_subnegotiation_is_stripped(d: Decoder, body: Seq<u8>)
    requires
        d.state == State::Ground,
        !body.contains(IAC),
    ensures
        run(d, seq![IAC, SB] + body + seq![IAC, SE]) == (
            Decoder { cr_seen: false, ..d },
            Seq::<Key>::empty(),
        ),
{
    let none = Seq::<Key>::empty();
    let sub = Decoder { state: State::IacSub, cr_seen: false, ..d };
    let intro = seq![IAC, SB];
    let end = seq![IAC, SE];
    lemma_run_two(d, IAC, SB);
    lemma_run_two(sub, IAC, SE);
    assert(none + none == none);
    assert(run(d, intro) == (sub, none));
    lemma_subnegotiation_body(sub, body);
    law_feed_splits(d, intro, body);
    assert(run(sub, end) == (Decoder { cr_seen: false, ..d }, none));
    law_feed_splits(d, intro + body, end);
}

/// CR, CR LF and CR NUL are each one Enter.
pub proof fn law_line_ends_are_one_enter(d: Decoder)
    requires
        d.state == State::Ground,
    ensures
        run(d, seq![0x0du8]).1 == seq![Key::Enter],
        run(d, seq![0x0du8, 0x0au8]).1 == seq![Key::Enter],
        run(d, seq![0x0du8, 0x00u8]).1 == seq![Key::Enter],
        !d.cr_seen ==> run(d, seq![0x0au8]).1 == seq![Key::Enter],
{
    reveal_with_fuel(run, 3);
    assert(seq![0x0du8, 0x0au8].drop_last() == seq![0x0du8]);
    assert(seq![0x0du8, 0x00u8].drop_last() == seq![0x0du8]);
    assert(seq![0x0du8].drop_last() == Seq::<u8>::empty());
    assert(seq![0x0au8].drop_last() == Seq::<u8>::empty());
}

/// After an idle poll nothing is left that a further idle poll would resolve: a
/// lone ESC comes out once, a dangling DCS is gone.
pub proof fn law_idle_settles(d: Decoder)
    ensures
        idled(idled(d).0) == (idled(d).0, None::<Key>),
        d.state == State::Esc ==> idled(d).1 == Some(Key::Esc),
        d.state == State::Dcs || d.state == State::DcsEsc ==> idled(d).0.dcs == Seq::<
            char,
        >::empty() && idled(d).0.state == State::Ground,
{
}

/// Nothing that the capability probes resolved is unlearned, and key edges are only
/// appended.
spec fn is_sticky(d: Decoder, after: Decoder) -> bool {
    &&& d.phys_keys ==> after.phys_keys
    &&& d.kitty_keys ==> after.kitty_keys
    &&& d.da1_seen ==> after.da1_seen
    &&& d.color_probe is Some ==> after.color_probe is Some
    &&& after.kitty_active == d.kitty_active
    &&& d.key_edges.is_prefix_of(after.key_edges)
}

#[verifier::rlimit(40)]
proof fn lemma_edges_are_appended(d: Decoder, c: char)
    ensures
        d.key_edges.is_prefix_of(csi_final(d, c).0.key_edges),
{
    reveal(csi_final);
    let after = csi_final(d, c).0.key_edges;
    assert(after.len() >= d.key_edges.len());
    assert(after.take(d.key_edges.len() as int) =~= d.key_edges);
}

#[verifier::rlimit(40)]
proof fn lemma_csi_is_sticky(d: Decoder, c: char)
    ensures
        is_sticky(d, csi_final(d, c).0),
        csi_final(d, c).0.dcs == d.dcs,
{
    lemma_edges_are_appended(d, c);
    reveal(csi_final);
}

proof fn lemma_csi_keeps_the_probe(d: Decoder, c: char)
    ensures
        csi_final(d, c).0.color_probe == d.color_probe,
{
    reveal(csi_final);
}

proof fn lemma_step_is_sticky(d: Decoder, b: u8)
    ensures
        is_sticky(d, step(d, b).0),
{
    if d.state == State::Csi && 0x40 <= b <= 0x7e {
        lemma_csi_is_sticky(d, b as char);
    }
}

/// However the stream goes on, a DCS body stays within the buffer's limit (plus
/// the one byte by which its last character may pass it).
pub proof fn law_dcs_stays_bounded(d: Decoder, bytes: Seq<u8>)
    requires
        utf8_len(d.dcs) <= MAX_DCS_LEN + 1,
    ensures
        utf8_len(run(d, bytes).0.dcs) <= MAX_DCS_LEN + 1,
    decreases bytes.len(),
{
    if bytes.len() > 0 {
        law_dcs_stays_bounded(d, bytes.drop_last());
        let before = run(d, bytes.drop_last()).0;
        let b = bytes.last();
        lemma_csi_is_sticky(before, b as char);
        assert(before.dcs.push(b as char).drop_last() == before.dcs);
    }
}

/// What the capability probes resolved is never unlearned, and key edges are
/// only ever appended.
pub proof fn law_capabilities_are_sticky(d: Decoder, bytes: Seq<u8>)
    ensures
        d.phys_keys ==> run(d, bytes).0.phys_keys,
        d.kitty_keys ==> run(d, bytes).0.kitty_keys,
        d.da1_seen ==> run(d, bytes).0.da1_seen,
        d.color_probe is Some ==> run(d, bytes).0.color_probe is Some,
        run(d, bytes).0.kitty_active == d.kitty_active,
        d.key_edges.is_prefix_of(run(d, bytes).0.key_edges),
    decreases bytes.len(),
{
    if bytes.len() > 0 {
        law_capabilities_are_sticky(d, bytes.drop_last());
        lemma_step_is_sticky(run(d, bytes.drop_last()).0, bytes.last());
    }
}

/// The color probe never finds 16 colors (no reply can tell), and what it found is
/// never forgotten, however the input goes on: not by a poll that brings nothing
/// either.
pub proof fn law_color_probe_never_finds_16(d: Decoder, bytes: Seq<u8>)
    requires
        d.color_probe != Some(ColorDepth::C16),
    ensures
        run(d, bytes).0.color_probe != Some(ColorDepth::C16),
        idled(run(d, bytes).0).0.color_probe == run(d, bytes).0.color_probe,
        d.color_probe is Some ==> run(d, bytes).0.color_probe is Some,
    decreases bytes.len(),
{
    law_capabilities_are_sticky(d, bytes);
    if bytes.len() > 0 {
        law_color_probe_never_finds_16(d, bytes.drop_last());
        let before = run(d, bytes.drop_last()).0;
        let b = bytes.last();
        lemma_csi_keeps_the_probe(before, b as char);
        reveal(color_readback);
    }
}

/// A fresh decoder has probed nothing, so no input makes it find 16 colors.
pub proof fn law_no_input_selects_16(bytes: Seq<u8>)
    ensures
        run(fresh(), bytes).0.color_probe != Some(ColorDepth::C16),
{
    law_color_probe_never_finds_16(fresh(), bytes);
}

/// On a quiet line a wait ends with an idle tick at exactly the last of the
/// empty polls it allows, and not before.
pub proof fn law_quiet_wait_ticks(d: Decoder, empties: u32)
    requires
        d.state == State::Ground,
        empties < IDLE_POLLS,
    ensures
        waited(d, Seq::empty(), empties) == (
            d,
            if empties + 1 == IDLE_POLLS {
                Some(MenuEvent::Idle)
            } else {
                None
            },
            (empties + 1) as u32,
        ),
{
}

/// The bytes of the telnet protocol (RFC 854) and the escape character.
pub proof fn law_telnet_codes(b: u8)
    ensures
        b == IAC <==> b == 255,
        b == DONT <==> b == 254,
        b == DO <==> b == 253,
        b == WONT <==> b == 252,
        b == WILL <==> b == 251,
        b == SB <==> b == 250,
        b == SE <==> b == 240,
        b == ESC <==> b == 27,
{
}

/// What a single byte is at ground level, where no line end is pending: a printable
/// character is itself, 8 and 127 are Backspace, 9 is Tab, 10 and 13 are Enter, and
/// of the others none is a key; only 27 and 255 begin something.
pub proof fn law_single_byte(d: Decoder, b: u8)
    requires
        d.state == State::Ground,
        !d.cr_seen,
    ensures
        run(d, seq![b]).1 == (if 32 <= b <= 126 {
            seq![Key::Char(b as char)]
        } else if b == 8 || b == 127 {
            seq![Key::Backspace]
        } else if b == 9 {
            seq![Key::Tab]
        } else if b == 10 || b == 13 {
            seq![Key::Enter]
        } else {
            Seq::empty()
        }),
        b != 27 && b != 255 ==> run(d, seq![b]).0 == (Decoder { cr_seen: b == 13, ..d }),
{
    reveal_with_fuel(run, 2);
    assert(seq![b].drop_last() == Seq::<u8>::empty());
}

/// A lone ESC before a character is the Esc key, and the character is typed; of two
/// ESCs the first is the Esc key, and the second is pending.
pub proof fn law_lone_escape_is_esc(d: Decoder, b: u8)
    requires
        d.state == State::Ground,
    ensures
        32 <= b <= 126 && b as char != '[' && b as char != 'O' && b as char != 'P' ==> run(
            d,
            seq![27, b],
        ) == (Decoder { cr_seen: false, ..d }, seq![Key::Esc, Key::Char(b as char)]),
        run(d, seq![27, 27]) == (
            Decoder { state: State::Esc, cr_seen: false, ..d },
            seq![Key::Esc],
        ),
        idled(run(d, seq![27]).0) == (Decoder { cr_seen: false, ..d }, Some(Key::Esc)),
{
    lemma_run_two(d, 27, b);
    lemma_run_two(d, 27, 27);
    reveal_with_fuel(run, 2);
    assert(seq![27u8].drop_last() == Seq::<u8>::empty());
}

/// The keys that terminals send as `ESC [` and a letter.
pub open spec fn letter_key(last: char) -> Option<Key> {
    match last {
        'A' => Some(Key::Up),
        'B' => Some(Key::Down),
        'C' => Some(Key::Right),
        'D' => Some(Key::Left),
        'Z' => Some(Key::BackTab),
        'V' => Some(Key::PageUp),
        'U' => Some(Key::PageDown),
        _ => None,
    }
}

/// The arrows are `ESC [ A` to `D` (up, down, right, left), with or without modifier
/// parameters, Shift-Tab is `ESC [ Z`, and SyncTERM's page keys are `ESC [ V` (up) and
/// `ESC [ U` (down): each one key, and nothing else changes. (While the kitty protocol
/// is on, arrows with an event type after a colon are edges.)
pub proof fn law_letter_keys(d: Decoder, body: Seq<u8>, last: char)
    requires
        d.state == State::Ground,
        forall|i: int| 0 <= i < body.len() ==> is_parameter(#[trigger] body[i]),
        letter_key(last) is Some,
        !d.kitty_active || !latin1(body).contains(':') || !('A' <= last <= 'D'),
    ensures
        run(d, csi_bytes(body, last)).0 == (Decoder { cr_seen: false, csi: latin1(body), ..d }),
        letter_key(last) matches Some(key) ==> run(d, csi_bytes(body, last)).1 == seq![key],
{
    reveal(csi_final);
    law_control_sequence(d, body, last);
}

/// The arrows in application mode are `ESC O A` to `D`; of other `ESC O` sequences
/// none is a key.
pub proof fn law_application_arrows(d: Decoder, b: u8)
    requires
        d.state == State::Ground,
    ensures
        run(d, seq![27, 'O' as u8, b]) == (
            Decoder { cr_seen: false, ..d },
            if 'A' as u8 <= b <= 'D' as u8 {
                match letter_key(b as char) {
                    Some(key) => seq![key],
                    None => Seq::empty(),
                }
            } else {
                Seq::empty()
            },
        ),
{
    let intro = seq![27, 'O' as u8];
    let s = seq![27, 'O' as u8, b];
    lemma_run_two(d, 27, 'O' as u8);
    assert(s.drop_last() == intro);
    let open = Decoder { state: State::Ss3, cr_seen: false, ..d };
    assert(run(d, intro).0 == open);
    assert(run(d, intro).1 == Seq::<Key>::empty());
    assert(run(d, s).1 == Seq::<Key>::empty() + step(open, b).1);
}

/// The page keys of xterm and its kin are `ESC [ 5 ~` (up) and `ESC [ 6 ~` (down), with
/// or without a modifier behind a `;`. Other numbers before the `~` are no key.
pub proof fn law_page_keys(d: Decoder, n: nat, modifier: Option<nat>)
    requires
        d.state == State::Ground,
    ensures
        ({
            let body = text::decimal(n) + match modifier {
                Some(m) => seq![';'] + text::decimal(m),
                None => Seq::empty(),
            };
            run(d, csi_bytes(text::bytes_of(body), '~')) == (
                Decoder { cr_seen: false, csi: body, ..d },
                if n == 5 {
                    seq![Key::PageUp]
                } else if n == 6 {
                    seq![Key::PageDown]
                } else {
                    Seq::empty()
                },
            )
        }),
{
    reveal_strlit("5");
    reveal_strlit("6");
    let first = text::decimal(n);
    let more = match modifier {
        Some(m) => seq![';'] + text::decimal(m),
        None => Seq::empty(),
    };
    let body = first + more;
    lemma_decimal_is_low(n);
    if let Some(m) = modifier {
        lemma_decimal_is_low(m);
    }
    lemma_ascii_bytes(body);
    reveal(csi_final);
    law_control_sequence(d, text::bytes_of(body), '~');
    text::lemma_index_of(body, ';', first.len() as int);
    assert(text::before(body, ';') == first);
    text::lemma_number_of_decimal(n, n + 9);
    text::lemma_number_of_decimal(5, n + 9);
    text::lemma_number_of_decimal(6, n + 9);
    assert(text::decimal(5) == "5"@);
    assert(text::decimal(6) == "6"@);
}

/// The position of a key that the kitty protocol names by the character it types.
pub open spec fn kitty_position(c: char) -> Option<u16> {
    match c {
        'z' => Some(44),
        'x' => Some(45),
        '\r' => Some(28),
        ' ' => Some(57),
        '\x1b' => Some(1),
        'q' => Some(16),
        _ => None,
    }
}

/// The event part of a kitty report: modifiers, and the event type behind a colon.
pub open spec fn kitty_event_text(modifiers: nat, event: u8) -> Seq<char> {
    seq![';'] + text::decimal(modifiers) + seq![':'] + text::decimal(event as nat)
}

proof fn lemma_kitty_event(head: Seq<char>, modifiers: nat, event: u8)
    requires
        !head.contains(';'),
    ensures
        event_type(head + kitty_event_text(modifiers, event)) == event,
        text::before(head + kitty_event_text(modifiers, event), ';') == head,
        (head + kitty_event_text(modifiers, event)).contains(':'),
{
    let m = text::decimal(modifiers);
    let e = text::decimal(event as nat);
    let second = m + seq![':'] + e;
    let csi = head + kitty_event_text(modifiers, event);
    text::lemma_decimal(modifiers);
    text::lemma_decimal(event as nat);
    text::lemma_digits_without(m, ';');
    text::lemma_digits_without(e, ';');
    text::lemma_digits_without(m, ':');
    assert(csi == head + seq![';'] + second);
    assert(!second.contains(';')) by {
        if second.contains(';') {
            let i = choose|i: int| 0 <= i < second.len() && second[i] == ';';
            if i < m.len() {
                assert(m.contains(m[i]));
            } else if i > m.len() {
                assert(e.contains(e[i - m.len() - 1]));
            }
        }
    }
    text::lemma_fields_cons(head, ';', second);
    text::lemma_single_field(second, ';');
    assert(text::fields(csi, ';') == seq![head, second]);
    assert(second[m.len() as int] == ':');
    assert forall|k: int| 0 <= k < m.len() implies second[k] != ':' by {
        assert(m.contains(m[k]));
    }
    text::lemma_index_of(second, ':', m.len() as int);
    assert(text::after(second, ':') == e);
    text::lemma_number_of_decimal(event as nat, 0xff);
    assert forall|k: int| 0 <= k < head.len() implies csi[k] != ';' by {
        assert(head.contains(head[k]));
    }
    text::lemma_index_of(csi, ';', head.len() as int);
    assert(text::before(csi, ';') == head);
    assert(csi[(head.len() + 1 + m.len()) as int] == ':');
}

/// **Every button and quit key can be reached over the kitty protocol.** While it is
/// on, the report of a key that stands for a character gives exactly one edge for each
/// of Z, X, Enter, Space, Esc and Q, with the key's position: down for a press or a
/// repeat, up for a release (event 3). Other characters give none, and none is a key.
pub proof fn law_kitty_key_is_one_edge(d: Decoder, c: char, modifiers: nat, event: u8)
    requires
        d.state == State::Ground,
        d.kitty_active,
    ensures
        ({
            let body = text::decimal(c as nat) + kitty_event_text(modifiers, event);
            run(d, csi_bytes(text::bytes_of(body), 'u')) == (
                Decoder {
                    cr_seen: false,
                    csi: body,
                    key_edges: d.key_edges + match kitty_position(c) {
                        Some(code) => seq![KeyEdge { code, pressed: event != 3 }],
                        None => Seq::empty(),
                    },
                    ..d
                },
                Seq::<Key>::empty(),
            )
        }),
{
    let first = text::decimal(c as nat);
    let body = first + kitty_event_text(modifiers, event);
    lemma_decimal_is_low(c as nat);
    lemma_decimal_is_low(modifiers);
    lemma_decimal_is_low(event as nat);
    lemma_ascii_bytes(body);
    reveal(csi_final);
    law_control_sequence(d, text::bytes_of(body), 'u');
    lemma_kitty_event(first, modifiers, event);
    text::lemma_decimal(c as nat);
    text::lemma_digits_without(first, ':');
    text::lemma_contains(first, ':');
    text::lemma_index_of_bounds(first, ':');
    assert(text::before(first, ':') == first);
    text::lemma_number_of_decimal(c as nat, 0xffff_ffff);
    assert(text::is_digit(first[0]));
    assert(body[0] == first[0]);
}

/// The same report without an event part is a press.
pub proof fn law_kitty_key_without_event_is_a_press(d: Decoder, c: char)
    requires
        d.state == State::Ground,
        d.kitty_active,
    ensures
        run(d, csi_bytes(text::bytes_of(text::decimal(c as nat)), 'u')).0.key_edges == d.key_edges
            + match kitty_position(c) {
            Some(code) => seq![KeyEdge { code, pressed: true }],
            None => Seq::empty(),
        },
{
    let first = text::decimal(c as nat);
    lemma_decimal_is_low(c as nat);
    lemma_ascii_bytes(first);
    reveal(csi_final);
    law_control_sequence(d, text::bytes_of(first), 'u');
    text::lemma_decimal(c as nat);
    text::lemma_digits_without(first, ':');
    text::lemma_contains(first, ';');
    text::lemma_index_of_bounds(first, ';');
    text::lemma_contains(first, ':');
    text::lemma_index_of_bounds(first, ':');
    assert(text::before(first, ';') == first);
    assert(text::before(first, ':') == first);
    text::lemma_single_field(first, ';');
    text::lemma_number_of_decimal(c as nat, 0xffff_ffff);
    assert(text::is_digit(first[0]));
}

/// While the protocol is off such reports are ignored.
pub proof fn law_kitty_reports_need_the_protocol(d: Decoder, body: Seq<u8>)
    requires
        d.state == State::Ground,
        !d.kitty_active,
        forall|i: int| 0 <= i < body.len() ==> is_parameter(#[trigger] body[i]),
        body.len() == 0 || body[0] as char != '?',
    ensures
        run(d, csi_bytes(body, 'u')) == (
            Decoder { cr_seen: false, csi: latin1(body), ..d },
            Seq::<Key>::empty(),
        ),
{
    reveal(csi_final);
    law_control_sequence(d, body, 'u');
}

/// An arrow with an event type (`ESC [ 1 ; mods : event A`) is one edge while the
/// protocol is on: the position of that arrow, up for a release. So the D-pad can be
/// reached too.
pub proof fn law_kitty_arrow_is_one_edge(d: Decoder, last: char, modifiers: nat, event: u8)
    requires
        d.state == State::Ground,
        d.kitty_active,
        'A' <= last <= 'D',
    ensures
        ({
            let body = seq!['1'] + kitty_event_text(modifiers, event);
            let code: u16 = match last {
                'A' => 103,
                'B' => 108,
                'C' => 106,
                _ => 105,
            };
            run(d, csi_bytes(text::bytes_of(body), last)) == (
                Decoder {
                    cr_seen: false,
                    csi: body,
                    key_edges: d.key_edges.push(KeyEdge { code, pressed: event != 3 }),
                    ..d
                },
                Seq::<Key>::empty(),
            )
        }),
{
    let body = seq!['1'] + kitty_event_text(modifiers, event);
    lemma_decimal_is_low(modifiers);
    lemma_decimal_is_low(event as nat);
    lemma_ascii_bytes(body);
    reveal(csi_final);
    law_control_sequence(d, text::bytes_of(body), last);
    lemma_kitty_event(seq!['1'], modifiers, event);
}

/// A physical report of two keys gives two edges, in the order of the report.
pub proof fn law_physical_report_keeps_its_order(d: Decoder, a: u16, b: u16, pressed: bool)
    requires
        d.state == State::Ground,
    ensures
        ({
            let body = seq!['='] + text::decimal(a as nat) + seq![';'] + text::decimal(b as nat);
            let last = if pressed {
                'K'
            } else {
                'k'
            };
            run(d, csi_bytes(text::bytes_of(body), last)).0.key_edges == d.key_edges + seq![
                KeyEdge { code: a, pressed },
                KeyEdge { code: b, pressed },
            ]
        }),
{
    let (x, y) = (text::decimal(a as nat), text::decimal(b as nat));
    let body = seq!['='] + x + seq![';'] + y;
    let last = if pressed {
        'K'
    } else {
        'k'
    };
    lemma_decimal_is_low(a as nat);
    lemma_decimal_is_low(b as nat);
    lemma_ascii_bytes(body);
    reveal(csi_final);
    law_control_sequence(d, text::bytes_of(body), last);
    assert(body.skip(1) == x + seq![';'] + y);
    text::lemma_fields_cons(x, ';', y);
    text::lemma_single_field(y, ';');
    text::lemma_number_of_decimal(a as nat, 0xffff);
    text::lemma_number_of_decimal(b as nat, 0xffff);
    let f = seq![x, y];
    assert(text::fields(x + seq![';'] + y, ';') == f);
    assert(f.drop_last() == seq![x]);
    assert(seq![x].drop_last() == Seq::<Seq<char>>::empty());
    reveal_with_fuel(code_edges, 3);
    assert(code_edges(f, pressed) == seq![
        KeyEdge { code: a, pressed },
        KeyEdge { code: b, pressed },
    ]);
}

proof fn lemma_field_is_there(p: Seq<char>, word: Seq<char>, q: Seq<char>)
    requires
        !word.contains(';'),
    ensures
        text::fields(p + seq![';'] + word, ';').contains(word),
        text::fields(p + seq![';'] + word + seq![';'] + q, ';').contains(word),
    decreases p.len(),
{
    let sep = seq![';'];
    let one = p + sep + word;
    let two = p + sep + word + sep + q;
    text::lemma_single_field(word, ';');
    text::lemma_fields_cons(word, ';', q);
    let i = text::index_of(p, ';');
    text::lemma_index_of_bounds(p, ';');
    text::lemma_contains(p, ';');
    if p.contains(';') {
        let (a, rest) = (p.take(i), p.skip(i + 1));
        assert(!a.contains(';')) by {
            if a.contains(';') {
                let k = choose|k: int| 0 <= k < a.len() && a[k] == ';';
                assert(p[k] == ';');
            }
        }
        lemma_field_is_there(rest, word, q);
        assert(one == a + sep + (rest + sep + word));
        assert(two == a + sep + (rest + sep + word + sep + q));
        text::lemma_fields_cons(a, ';', rest + sep + word);
        text::lemma_fields_cons(a, ';', rest + sep + word + sep + q);
        let f = text::fields(rest + sep + word, ';');
        let g = text::fields(rest + sep + word + sep + q, ';');
        let (m, n) = (
            choose|m: int| 0 <= m < f.len() && f[m] == word,
            choose|n: int| 0 <= n < g.len() && g[n] == word,
        );
        assert((seq![a] + f)[m + 1] == word);
        assert((seq![a] + g)[n + 1] == word);
    } else {
        assert(two == p + sep + (word + sep + q));
        text::lemma_fields_cons(p, ';', word);
        text::lemma_fields_cons(p, ';', word + sep + q);
        assert((seq![p] + seq![word])[1] == word);
        assert((seq![p] + (seq![word] + text::fields(q, ';')))[1] == word);
    }
}

proof fn lemma_attributes(d: Decoder, body: Seq<char>)
    requires
        d.state == State::Ground,
        forall|i: int| 0 <= i < body.len() ==> #[trigger] body[i] < '@',
        body.len() > 0,
        body[0] == '<',
    ensures
        run(d, csi_bytes(text::bytes_of(body), 'c')).0 == (Decoder {
            cr_seen: false,
            csi: body,
            phys_keys: d.phys_keys || text::fields(body.skip(1), ';').contains("8"@),
            ..d
        }),
{
    lemma_ascii_bytes(body);
    reveal(csi_final);
    law_control_sequence(d, text::bytes_of(body), 'c');
}

/// A terminal that lists the value 8 in its extended attributes (`ESC [ < 0 ; … ; 8 ;
/// … c`, at the end or before other values) reports physical keys, and that mode is
/// taken, whatever else it can do.
pub proof fn law_physical_keys_are_advertised(d: Decoder, p: Seq<char>, q: Option<Seq<char>>)
    requires
        d.state == State::Ground,
        forall|i: int| 0 <= i < p.len() ==> #[trigger] p[i] < '@',
        q matches Some(t) ==> forall|i: int| 0 <= i < t.len() ==> #[trigger] t[i] < '@',
    ensures
        ({
            let body = seq!['<'] + p + seq![';', '8'] + match q {
                Some(t) => seq![';'] + t,
                None => Seq::empty(),
            };
            let after = run(d, csi_bytes(text::bytes_of(body), 'c')).0;
            &&& after == (Decoder { cr_seen: false, csi: body, phys_keys: true, ..d })
            &&& mode_of(after) == KeyboardMode::CtermPhysical
        }),
{
    reveal_strlit("8");
    let word = seq!['8'];
    assert("8"@ == word);
    match q {
        Some(t) => {
            let body = seq!['<'] + p + seq![';', '8'] + (seq![';'] + t);
            assert forall|i: int| 0 <= i < body.len() implies #[trigger] body[i] < '@' by {
                if 1 <= i < 1 + p.len() {
                    assert(body[i] == p[i - 1]);
                } else if i > 3 + p.len() {
                    assert(t[i - 4 - p.len()] == body[i]);
                }
            }
            lemma_field_is_there(p, word, t);
            assert(body.skip(1) == p + seq![';'] + word + seq![';'] + t);
            lemma_attributes(d, body);
        },
        None => {
            let body = seq!['<'] + p + seq![';', '8'] + Seq::<char>::empty();
            assert forall|i: int| 0 <= i < body.len() implies #[trigger] body[i] < '@' by {
                if 1 <= i < 1 + p.len() {
                    assert(body[i] == p[i - 1]);
                }
            }
            lemma_field_is_there(p, word, p);
            assert(body.skip(1) == p + seq![';'] + word);
            lemma_attributes(d, body);
        },
    }
}

/// One that lists two other values has not said so.
pub proof fn law_other_attributes_are_ignored(d: Decoder, a: nat, b: nat)
    requires
        d.state == State::Ground,
        a != 8,
        b != 8,
    ensures
        ({
            let body = seq!['<'] + text::decimal(a) + seq![';'] + text::decimal(b);
            run(d, csi_bytes(text::bytes_of(body), 'c')).0 == (Decoder {
                cr_seen: false,
                csi: body,
                ..d
            })
        }),
{
    reveal_strlit("8");
    let word = seq!['8'];
    assert("8"@ == word);
    let (x, y) = (text::decimal(a), text::decimal(b));
    let other = seq!['<'] + x + seq![';'] + y;
    lemma_decimal_is_low(a);
    lemma_decimal_is_low(b);
    assert(other.skip(1) == x + seq![';'] + y);
    text::lemma_fields_cons(x, ';', y);
    text::lemma_single_field(y, ';');
    text::lemma_decimal(a);
    text::lemma_decimal(b);
    text::lemma_decimal(8);
    assert(text::decimal(8) == word);
    let f = text::fields(other.skip(1), ';');
    assert(f == seq![x, y]);
    assert(!f.contains("8"@));
    lemma_attributes(d, other);
}

/// The reply that begins with `?` and ends in `c` is the probe barrier, the one that
/// ends in `u` says that the terminal speaks the kitty protocol; neither says anything
/// else.
pub proof fn law_question_replies(d: Decoder, rest: Seq<u8>)
    requires
        d.state == State::Ground,
        forall|i: int| 0 <= i < rest.len() ==> is_parameter(#[trigger] rest[i]),
    ensures
        ({
            let body = seq!['?' as u8] + rest;
            &&& run(d, csi_bytes(body, 'c')).0 == (Decoder {
                cr_seen: false,
                csi: latin1(body),
                da1_seen: true,
                ..d
            })
            &&& run(d, csi_bytes(body, 'u')).0 == (Decoder {
                cr_seen: false,
                csi: latin1(body),
                kitty_keys: true,
                ..d
            })
        }),
{
    let body = seq!['?' as u8] + rest;
    assert forall|i: int| 0 <= i < body.len() implies is_parameter(#[trigger] body[i]) by {
        if i > 0 {
            assert(body[i] == rest[i - 1]);
        }
    }
    reveal(csi_final);
    law_control_sequence(d, body, 'c');
    law_control_sequence(d, body, 'u');
    assert(latin1(body)[0] == '?');
}

/// The protocol that is used: physical keys where they are advertised, else kitty
/// where the terminal speaks it, else neither.
pub proof fn law_keyboard_mode(d: Decoder)
    ensures
        mode_of(d) == KeyboardMode::CtermPhysical <==> d.phys_keys,
        mode_of(d) == KeyboardMode::Kitty <==> d.kitty_keys && !d.phys_keys,
        mode_of(d) == KeyboardMode::Legacy <==> !d.kitty_keys && !d.phys_keys,
        mode_of(fresh()) == KeyboardMode::Legacy,
        !fresh().da1_seen && fresh().color_probe is None && fresh().cursor is None
            && fresh().audio_drain is None,
{
}

/// The text holds `part` at `i`.
pub open spec fn holds_at(s: Seq<char>, part: Seq<char>, i: int) -> bool {
    0 <= i && i + part.len() <= s.len() && s.subrange(i, i + part.len()) == part
}

/// What a reply to the color probe means. It counts only where it holds `$r`. With
/// `38;5` or `38:5` in it the terminal fell back to 256 colors; else with `38;2` or
/// `38:2` in it it kept 24 bits.
pub proof fn law_color_reply_is_read(body: Seq<char>, i: int, j: int)
    ensures
        (forall|k: int| !holds_at(body, "$r"@, k)) ==> color_readback(body) is None,
        holds_at(body, "$r"@, i) && (holds_at(body, "38;5"@, j) || holds_at(body, "38:5"@, j))
            ==> color_readback(body) == Some(ColorDepth::C256),
        holds_at(body, "$r"@, i) && (holds_at(body, "38;2"@, j) || holds_at(body, "38:2"@, j))
            && (forall|k: int| !holds_at(body, "38;5"@, k) && !holds_at(body, "38:5"@, k))
            ==> color_readback(body) == Some(ColorDepth::True),
        (forall|k: int|
            !holds_at(body, "38;5"@, k) && !holds_at(body, "38:5"@, k) && !holds_at(
                body,
                "38;2"@,
                k,
            ) && !holds_at(body, "38:2"@, k)) ==> color_readback(body) is None,
{
    reveal(color_readback);
    lemma_part(body, "$r"@, i);
    lemma_part(body, "38;5"@, j);
    lemma_part(body, "38:5"@, j);
    lemma_part(body, "38;2"@, j);
    lemma_part(body, "38:2"@, j);
}

proof fn lemma_part(s: Seq<char>, part: Seq<char>, i: int)
    ensures
        holds_at(s, part, i) ==> text::has_part(s, part),
        (forall|k: int| !holds_at(s, part, k)) ==> !text::has_part(s, part),
        text::has_part(s, part) ==> exists|k: int| holds_at(s, part, k),
{
    if text::has_part(s, part) {
        let k = choose|k: int|
            0 <= k <= s.len() - part.len() && #[trigger] s.subrange(k, k + part.len()) == part;
        assert(holds_at(s, part, k));
    }
}

/// While the menu waits, the first key of what came is handed on at once; a lone ESC is
/// the Esc key at the second empty poll and not before; a size report that came without
/// a key is handed on.
pub proof fn law_waiting(d: Decoder, bytes: Seq<u8>, empties: u32)
    requires
        empties < 0xffff,
    ensures
        bytes.len() > 0 && run(d, bytes).1.len() > 0 ==> waited(d, bytes, empties).1 == Some(
            MenuEvent::Key(run(d, bytes).1[0]),
        ),
        bytes.len() > 0 && run(d, bytes).1.len() == 0 ==> (match run(d, bytes).0.cursor {
            Some((rows, cols)) => waited(d, bytes, empties).1 == Some(MenuEvent::Resize(rows, cols))
                && waited(d, bytes, empties).0.cursor is None,
            None => waited(d, bytes, empties).1 is None,
        }),
        bytes.len() > 0 ==> waited(d, bytes, empties).2 == 0,
        bytes.len() == 0 && d.state == State::Esc ==> waited(d, bytes, empties).1 == (if empties
            >= 1 {
            Some(MenuEvent::Key(Key::Esc))
        } else {
            None
        }),
        bytes.len() == 0 ==> waited(d, bytes, empties).2 == empties + 1,
        bytes.len() == 0 && d.state == State::Ground ==> waited(d, bytes, empties).1 == (if empties
            >= 65 {
            Some(MenuEvent::Idle)
        } else {
            None
        }),
{
}

/// The cursor report taken.
pub open spec fn without_cursor(d: Decoder) -> Decoder {
    Decoder { cursor: None, ..d }
}

/// The audio report taken.
pub open spec fn without_drain(d: Decoder) -> Decoder {
    Decoder { audio_drain: None, ..d }
}

/// The key edges taken.
pub open spec fn without_edges(d: Decoder) -> Decoder {
    Decoder { key_edges: Seq::empty(), ..d }
}

/// Kitty events decoded, or not.
pub open spec fn with_kitty(d: Decoder, on: bool) -> Decoder {
    Decoder { kitty_active: on, ..d }
}

/// What a terminal reported is taken once, each report by itself: taking one leaves the
/// others, and the bytes half read, as they are.
pub proof fn law_reports_are_taken_once(d: Decoder, on: bool)
    ensures
        without_cursor(d).cursor is None && without_drain(d).audio_drain is None && without_edges(
            d,
        ).key_edges.len() == 0 && with_kitty(d, on).kitty_active == on,
        without_cursor(d).audio_drain == d.audio_drain && without_cursor(d).key_edges == d.key_edges,
        without_drain(d).cursor == d.cursor && without_drain(d).key_edges == d.key_edges,
        without_edges(d).cursor == d.cursor && without_edges(d).audio_drain == d.audio_drain,
        with_kitty(d, on).cursor == d.cursor && with_kitty(d, on).audio_drain == d.audio_drain
            && with_kitty(d, on).key_edges == d.key_edges,
        without_cursor(d).state == d.state && without_cursor(d).csi == d.csi,
        without_drain(d).state == d.state && without_drain(d).csi == d.csi,
        without_edges(d).state == d.state && without_edges(d).csi == d.csi,
        with_kitty(d, on).state == d.state && with_kitty(d, on).csi == d.csi,
        without_cursor(d).kitty_active == d.kitty_active && without_edges(d).kitty_active
            == d.kitty_active && without_drain(d).kitty_active == d.kitty_active,
{
}

/// Of the channels that a report lists, the first that stopped counts, whatever others
/// play; a report of another kind lists none.
pub proof fn law_first_stopped_channel_counts(
    id: u8,
    state: nat,
    rest: Seq<Seq<char>>,
    params: Seq<char>,
)
    ensures
        ({
            let f = seq![text::decimal(id as nat), text::decimal(state)] + rest;
            &&& state == 0 ==> first_stopped(f) == Some(id)
            &&& state != 0 ==> first_stopped(f) == first_stopped(rest)
        }),
        first_stopped(Seq::empty()) is None,
        params.len() >= 1 && params[0] != '=' ==> drain_report(params) is None,
        params.len() >= 2 && params[1] != '7' ==> drain_report(params) is None,
        params.len() >= 3 && params[2] != ';' ==> drain_report(params) is None,
        params.len() < 2 ==> drain_report(params) is None,
{
    reveal_strlit("0");
    reveal_strlit("=7");
    let (a, b) = (text::decimal(id as nat), text::decimal(state));
    let f = seq![a, b] + rest;
    text::lemma_number_of_decimal(id as nat, 0xff);
    assert(f[0] == a && f[1] == b);
    assert(f.skip(2) =~= rest);
    if state == 0 {
        assert(b =~= "0"@);
    } else {
        text::lemma_number_of_decimal(state, state);
        text::lemma_number_of_decimal(0, state);
        assert(text::decimal(0) =~= "0"@);
        assert(b != "0"@);
    }
    if text::begins_with(params, "=7"@) {
        assert(params.take(2)[0] == '=' && params.take(2)[1] == '7');
    }
}

} // verus!
