//! Per-user preferences and the sysop's door defaults, as text files.

use crate::text;
use vstd::prelude::*;

verus! {

// ---------------------------------------------------------------------------
// Preferences
// ---------------------------------------------------------------------------

#[derive(Debug, Clone, PartialEq)]
pub struct Config {
    pub roms_dir: Option<String>,
    /// Persisted render mode: Some(true) = Block, Some(false) = ASCII.
    pub render_block: Option<bool>,
    /// Persisted sound mode: "off" | "ansi" | "apc".
    pub sound: Option<String>,
    /// Persisted game-list filter: "all" | "gb" | "gbc".
    pub filter: Option<String>,
    /// Persisted screen-size mode: "auto" | "best".
    pub screen: Option<String>,
    /// Persisted color depth: "auto" | "truecolor" | "256" | "16".
    pub color: Option<String>,
    /// Persisted DMG (non-color game) palette: "gray" | "green".
    pub dmg_palette: Option<String>,
    /// File name of the last game the user launched, so the list reopens on it.
    pub last_game: Option<String>,
}

/// What preferences say.
#[verifier::ext_equal]
pub struct Prefs {
    pub roms_dir: Option<Seq<char>>,
    pub render_block: Option<bool>,
    pub sound: Option<Seq<char>>,
    pub filter: Option<Seq<char>>,
    pub screen: Option<Seq<char>>,
    pub color: Option<Seq<char>>,
    pub dmg_palette: Option<Seq<char>>,
    pub last_game: Option<Seq<char>>,
}

/// The text in an optional string.
pub open spec fn opt(s: Option<String>) -> Option<Seq<char>> {
    match s {
        Some(s) => Some(s@),
        None => None,
    }
}

impl View for Config {
    type V = Prefs;

    open spec fn view(&self) -> Prefs {
        Prefs {
            roms_dir: opt(self.roms_dir),
            render_block: self.render_block,
            sound: opt(self.sound),
            filter: opt(self.filter),
            screen: opt(self.screen),
            color: opt(self.color),
            dmg_palette: opt(self.dmg_palette),
            last_game: opt(self.last_game),
        }
    }
}

/// Nothing is set.
pub open spec fn unset() -> Prefs {
    Prefs {
        roms_dir: None,
        render_block: None,
        sound: None,
        filter: None,
        screen: None,
        color: None,
        dmg_palette: None,
        last_game: None,
    }
}

impl Default for Config {
    fn default() -> (r: Self)
        ensures
            r@ == unset(),
    {
        Config {
            roms_dir: None,
            render_block: None,
            sound: None,
            filter: None,
            screen: None,
            color: None,
            dmg_palette: None,
            last_game: None,
        }
    }
}

/// The value on a line that begins with `key`.
pub open spec fn value_of(line: Seq<char>, key: Seq<char>) -> Seq<char> {
    text::trimmed(line.skip(key.len() as int))
}

/// Preferences after one more line of the file. A ROM directory counts only when
/// it is one of `dirs`, the directories that exist.
pub open spec fn with_line(p: Prefs, line: Seq<char>, dirs: Seq<Seq<char>>) -> Prefs {
    if text::begins_with(line, "roms_dir="@) {
        let v = value_of(line, "roms_dir="@);
        if dirs.contains(v) {
            Prefs { roms_dir: Some(v), ..p }
        } else {
            p
        }
    } else if text::begins_with(line, "render="@) {
        let v = value_of(line, "render="@);
        Prefs {
            render_block: Some(text::ascii_lowered(v) == text::ascii_lowered("block"@)),
            ..p
        }
    } else if text::begins_with(line, "sound="@) {
        Prefs { sound: Some(text::folded(value_of(line, "sound="@))), ..p }
    } else if text::begins_with(line, "audio="@) {
        // The on/off audio toggle of old files maps to ansi/off.
        let v = value_of(line, "audio="@);
        if p.sound is Some {
            p
        } else if text::ascii_lowered(v) == text::ascii_lowered("on"@) {
            Prefs { sound: Some("ansi"@), ..p }
        } else {
            Prefs { sound: Some("off"@), ..p }
        }
    } else if text::begins_with(line, "filter="@) {
        Prefs { filter: Some(text::folded(value_of(line, "filter="@))), ..p }
    } else if text::begins_with(line, "screen="@) {
        Prefs { screen: Some(text::folded(value_of(line, "screen="@))), ..p }
    } else if text::begins_with(line, "color="@) {
        Prefs { color: Some(text::folded(value_of(line, "color="@))), ..p }
    } else if text::begins_with(line, "dmg_palette="@) {
        Prefs { dmg_palette: Some(text::folded(value_of(line, "dmg_palette="@))), ..p }
    } else if text::begins_with(line, "last_game="@) {
        let v = value_of(line, "last_game="@);
        if v.len() > 0 {
            Prefs { last_game: Some(v), ..p }
        } else {
            p
        }
    } else {
        p
    }
}

/// Preferences after more lines of the file.
pub open spec fn with_lines(p: Prefs, lines: Seq<Seq<char>>, dirs: Seq<Seq<char>>) -> Prefs
    decreases lines.len(),
{
    if lines.len() == 0 {
        p
    } else {
        with_lines(with_line(p, lines[0], dirs), lines.drop_first(), dirs)
    }
}

/// What a preferences file says.
pub open spec fn loaded(contents: Seq<char>, dirs: Seq<Seq<char>>) -> Prefs {
    with_lines(unset(), text::lines(contents), dirs)
}

/// The ROM directories that a file names, in order.
pub open spec fn named_dirs(lines: Seq<Seq<char>>) -> Seq<Seq<char>>
    decreases lines.len(),
{
    if lines.len() == 0 {
        Seq::empty()
    } else {
        let before = named_dirs(lines.drop_last());
        if text::begins_with(lines.last(), "roms_dir="@) {
            before.push(value_of(lines.last(), "roms_dir="@))
        } else {
            before
        }
    }
}

/// A line `key` and value, or nothing.
pub open spec fn entry(key: Seq<char>, v: Option<Seq<char>>) -> Seq<char> {
    match v {
        Some(v) => key + v + seq!['\n'],
        None => Seq::empty(),
    }
}

pub open spec fn render_word(block: Option<bool>) -> Option<Seq<char>> {
    match block {
        Some(b) => Some(if b {
            "block"@
        } else {
            "ascii"@
        }),
        None => None,
    }
}

/// The text of a preferences file.
pub open spec fn saved(p: Prefs) -> Seq<char> {
    entry("roms_dir="@, p.roms_dir) + entry("render="@, render_word(p.render_block)) + entry(
        "sound="@,
        p.sound,
    ) + entry("filter="@, p.filter) + entry("screen="@, p.screen) + entry("color="@, p.color)
        + entry("dmg_palette="@, p.dmg_palette) + entry("last_game="@, p.last_game)
}

/// The name of a user's preferences file.
pub open spec fn file_name(user: Option<Seq<char>>) -> Seq<char> {
    match user {
        Some(u) => if u.len() > 0 {
            "config-"@ + text::sanitized(u)
        } else {
            "config"@
        },
        None => "config"@,
    }
}

/// The views of a list of strings.
pub open spec fn strings(v: Seq<String>) -> Seq<Seq<char>> {
    v.map_values(|s: String| s@)
}

/// Returns the name of the config file. When `user` is set, preferences are
/// stored in a per-user file (`config-<user>`) so each BBS caller keeps their
/// own render/audio/filter choices; the door process otherwise shares one
/// `$HOME` across all callers.
pub fn config_file_name(user: Option<&str>) -> (r: String)
    ensures
        r@ == file_name(
            match user {
                Some(u) => Some(u@),
                None => None,
            },
        ),
{
    let mut name = String::new();
    name.append("config");
    if let Some(u) = user {
        if text::chars_of(u).len() > 0 {
            let key = text::sanitize(u);
            name = String::new();
            name.append("config-");
            name.append(key.as_str());
        }
    }
    name
}

/// The ROM directories that a config file names: what has to be looked up before
/// `load`.
pub fn roms_dirs(contents: &str) -> (r: Vec<String>)
    ensures
        strings(r@) == named_dirs(text::lines(contents@)),
{
    let all = text::chars_of(contents);
    let lines = text::split_lines(all.as_slice());
    let ghost l = text::texts(lines@);
    let mut r: Vec<String> = Vec::new();
    assert(strings(r@) == Seq::<Seq<char>>::empty());
    let mut i: usize = 0;
    while i < lines.len()
        invariant
            i <= lines.len(),
            l == text::texts(lines@),
            strings(r@) == named_dirs(l.take(i as int)),
        decreases lines.len() - i,
    {
        assert(l.take(i + 1).drop_last() == l.take(i as int));
        assert(l[i as int] == lines@[i as int]@);
        let ghost before = strings(r@);
        if let Some(v) = text::after_prefix(lines[i].as_slice(), "roms_dir=") {
            r.push(text::string_of(text::trim(v)));
            assert(strings(r@) == before.push(value_of(l[i as int], "roms_dir="@)));
        }
        i += 1;
    }
    assert(l.take(i as int) == l);
    r
}

fn is_listed(v: &[char], dirs: &[String]) -> (r: bool)
    ensures
        r == strings(dirs@).contains(v@),
{
    let mut i: usize = 0;
    while i < dirs.len()
        invariant
            i <= dirs.len(),
            forall|k: int| 0 <= k < i ==> #[trigger] strings(dirs@)[k] != v@,
        decreases dirs.len() - i,
    {
        assert(strings(dirs@)[i as int] == dirs@[i as int]@);
        if text::is_word(v, dirs[i].as_str()) {
            return true;
        }
        i += 1;
    }
    false
}

/// The value behind a key, trimmed, in lower case.
fn lowered(v: &[char]) -> (r: String)
    ensures
        r@ == text::folded(text::trimmed(v@)),
{
    text::lower_trimmed(text::string_of(v).as_str())
}

/// Take one line of a config file.
fn apply_line(cfg: Config, line: &[char], dirs: &[String]) -> (r: Config)
    ensures
        r@ == with_line(cfg@, line@, strings(dirs@)),
{
    let mut cfg = cfg;
    if let Some(v) = text::after_prefix(line, "roms_dir=") {
        let v = text::trim(v);
        if is_listed(v, dirs) {
            cfg.roms_dir = Some(text::string_of(v));
        }
    } else if let Some(v) = text::after_prefix(line, "render=") {
        cfg.render_block = Some(text::same_ignoring_case(text::trim(v), "block"));
    } else if let Some(v) = text::after_prefix(line, "sound=") {
        cfg.sound = Some(lowered(v));
    } else if let Some(v) = text::after_prefix(line, "audio=") {
        // Back-compat: the old on/off audio toggle maps to ansi/off.
        if cfg.sound.is_none() {
            let mode = if text::same_ignoring_case(text::trim(v), "on") {
                "ansi"
            } else {
                "off"
            };
            cfg.sound = Some(mode.to_owned());
        }
    } else if let Some(v) = text::after_prefix(line, "filter=") {
        cfg.filter = Some(lowered(v));
    } else if let Some(v) = text::after_prefix(line, "screen=") {
        cfg.screen = Some(lowered(v));
    } else if let Some(v) = text::after_prefix(line, "color=") {
        cfg.color = Some(lowered(v));
    } else if let Some(v) = text::after_prefix(line, "dmg_palette=") {
        cfg.dmg_palette = Some(lowered(v));
    } else if let Some(v) = text::after_prefix(line, "last_game=") {
        let v = text::trim(v);
        if v.len() > 0 {
            cfg.last_game = Some(text::string_of(v));
        }
    }
    cfg
}

/// Read a config file's text (`None` when there is none): defaults where it says
/// nothing. `dirs` lists the directories that exist among those that `roms_dirs`
/// named.
pub fn load(contents: Option<&str>, dirs: &[String]) -> (r: Config)
    ensures
        r@ == (match contents {
            Some(c) => loaded(c@, strings(dirs@)),
            None => unset(),
        }),
{
    let contents = match contents {
        Some(c) => c,
        None => {
            return Config::default();
        },
    };
    let all = text::chars_of(contents);
    let lines = text::split_lines(all.as_slice());
    let ghost l = text::texts(lines@);
    let mut cfg = Config::default();
    let mut i: usize = 0;
    assert(l.skip(0) == l);
    while i < lines.len()
        invariant
            i <= lines.len(),
            l == text::texts(lines@),
            with_lines(unset(), l, strings(dirs@)) == with_lines(
                cfg@,
                l.skip(i as int),
                strings(dirs@),
            ),
        decreases lines.len() - i,
    {
        assert(l.skip(i as int).drop_first() == l.skip(i + 1));
        assert(l[i as int] == lines@[i as int]@);
        cfg = apply_line(cfg, lines[i].as_slice(), dirs);
        i += 1;
    }
    cfg
}

fn push_entry(out: &mut String, key: &str, v: &Option<String>)
    ensures
        final(out)@ == old(out)@ + entry(key@, opt(*v)),
{
    if let Some(v) = v {
        out.append(key);
        out.append(v.as_str());
        out.push('\n');
    }
    assert(out@ == old(out)@ + entry(key@, opt(*v)));
}

/// The text to persist.
pub fn save(cfg: &Config) -> (contents: String)
    ensures
        contents@ == saved(cfg@),
{
    let render = match cfg.render_block {
        Some(b) => Some(
            (if b {
                "block"
            } else {
                "ascii"
            }).to_owned(),
        ),
        None => None,
    };
    let mut out = String::new();
    push_entry(&mut out, "roms_dir=", &cfg.roms_dir);
    assert(out@ == entry("roms_dir="@, cfg@.roms_dir));
    push_entry(&mut out, "render=", &render);
    push_entry(&mut out, "sound=", &cfg.sound);
    push_entry(&mut out, "filter=", &cfg.filter);
    push_entry(&mut out, "screen=", &cfg.screen);
    push_entry(&mut out, "color=", &cfg.color);
    push_entry(&mut out, "dmg_palette=", &cfg.dmg_palette);
    push_entry(&mut out, "last_game=", &cfg.last_game);
    out
}

// ---------------------------------------------------------------------------
// Door defaults
// ---------------------------------------------------------------------------

/// Sysop-level door defaults, read from `lameboy.ini` next to the binary (or the
/// working directory). These are the settings a sysop sets once instead of
/// piling them onto the door command line; an explicit command-line flag always
/// overrides the ini. Per-call values (the DOOR32 dropfile, the user id) are
/// never here: the BBS supplies those at launch.
///
/// Example `lameboy.ini`:
///   roms = roms
///   fps = 20
///   ansi_music = true
///   audio_chunk_ms = 40
///   audio_rate = 22050
#[derive(Debug, Clone, PartialEq)]
pub struct DoorIni {
    pub roms: Option<String>,
    /// Transmit frame-rate cap, as written (a decimal fraction).
    pub fps: Option<String>,
    pub ansi_music: Option<bool>,
    /// Sysop board-wide default color depth: "auto" | "truecolor" | "256" | "16".
    /// A per-user menu choice overrides it; a caller with no saved pref inherits it.
    pub color: Option<String>,
    /// Smallest APC audio clip emitted (ms); also the drop/skip granularity.
    pub audio_chunk_ms: Option<u32>,
    /// APC audio output sample rate (Hz); lower = less bandwidth on the link.
    pub audio_rate: Option<u32>,
    /// Seconds between periodic APC audio resyncs (0 = disabled). A hard channel
    /// flush + re-anchor that drops the latency piling up in the terminal's FIFO.
    pub audio_resync_secs: Option<u32>,
}

/// What door defaults say.
#[verifier::ext_equal]
pub struct Defaults {
    pub roms: Option<Seq<char>>,
    pub fps: Option<Seq<char>>,
    pub ansi_music: Option<bool>,
    pub color: Option<Seq<char>>,
    pub audio_chunk_ms: Option<u32>,
    pub audio_rate: Option<u32>,
    pub audio_resync_secs: Option<u32>,
}

impl View for DoorIni {
    type V = Defaults;

    open spec fn view(&self) -> Defaults {
        Defaults {
            roms: opt(self.roms),
            fps: opt(self.fps),
            ansi_music: self.ansi_music,
            color: opt(self.color),
            audio_chunk_ms: self.audio_chunk_ms,
            audio_rate: self.audio_rate,
            audio_resync_secs: self.audio_resync_secs,
        }
    }
}

pub open spec fn no_defaults() -> Defaults {
    Defaults {
        roms: None,
        fps: None,
        ansi_music: None,
        color: None,
        audio_chunk_ms: None,
        audio_rate: None,
        audio_resync_secs: None,
    }
}

impl Default for DoorIni {
    fn default() -> (r: Self)
        ensures
            r@ == no_defaults(),
    {
        DoorIni {
            roms: None,
            fps: None,
            ansi_music: None,
            color: None,
            audio_chunk_ms: None,
            audio_rate: None,
            audio_resync_secs: None,
        }
    }
}

/// APC audio stream tuning, sourced from `lameboy.ini` (sysop) with built-in
/// defaults. `chunk_ms` is the min clip / drop granularity; `rate` is the output
/// sample rate (the bandwidth lever: lower keeps the link from saturating). The
/// stream self-corrects latency against wall-clock, so there is no cushion knob.
#[derive(Clone, Copy, PartialEq, Eq, Debug, Structural)]
pub struct ApcTuning {
    pub chunk_ms: u32,
    pub rate: u32,
    /// Seconds between periodic resyncs (0 = off). Caps the terminal-side FIFO
    /// latency at roughly this interval times the producer's over-realtime drift.
    pub resync_secs: u32,
}

/// The built-in tuning.
pub open spec fn built_in_tuning() -> ApcTuning {
    ApcTuning { chunk_ms: 40, rate: 22050, resync_secs: 60 }
}

impl Default for ApcTuning {
    fn default() -> (r: Self)
        ensures
            r == built_in_tuning(),
    {
        ApcTuning { chunk_ms: 40, rate: 22050, resync_secs: 60 }
    }
}

pub open spec fn or_else(v: Option<u32>, other: u32) -> u32 {
    match v {
        Some(v) => v,
        None => other,
    }
}

pub open spec fn tuning_of(d: Defaults) -> ApcTuning {
    ApcTuning {
        chunk_ms: or_else(d.audio_chunk_ms, built_in_tuning().chunk_ms),
        rate: or_else(d.audio_rate, built_in_tuning().rate),
        resync_secs: or_else(d.audio_resync_secs, built_in_tuning().resync_secs),
    }
}

impl DoorIni {
    /// Resolve APC tuning from the ini, falling back to the built-in defaults.
    pub fn apc_tuning(&self) -> (r: ApcTuning)
        ensures
            r == tuning_of(self@),
    {
        let base = ApcTuning::default();
        ApcTuning {
            chunk_ms: match self.audio_chunk_ms {
                Some(v) => v,
                None => base.chunk_ms,
            },
            rate: match self.audio_rate {
                Some(v) => v,
                None => base.rate,
            },
            resync_secs: match self.audio_resync_secs {
                Some(v) => v,
                None => base.resync_secs,
            },
        }
    }
}

/// The number that `v` spells, brought into a window.
pub open spec fn clamped_number(v: Seq<char>, low: nat, high: nat) -> Option<u32> {
    match text::number(v, 0xffff_ffff) {
        Some(n) => Some(
            (if n < low {
                low
            } else if n > high {
                high
            } else {
                n
            }) as u32,
        ),
        None => None,
    }
}

/// A resync interval: 0 disables, anything else is brought into the window.
pub open spec fn resync_number(v: Seq<char>) -> Option<u32> {
    if text::number(v, 0xffff_ffff) == Some(0nat) {
        Some(0)
    } else {
        clamped_number(v, 5, 3600)
    }
}

/// Defaults after one setting: its key in lower case, its value, and its value in
/// lower case.
pub open spec fn with_setting(
    d: Defaults,
    key: Seq<char>,
    value: Seq<char>,
    lowered: Seq<char>,
) -> Defaults {
    if key == "roms"@ {
        if value.len() > 0 {
            Defaults { roms: Some(value), ..d }
        } else {
            d
        }
    } else if key == "fps"@ {
        Defaults { fps: Some(value), ..d }
    } else if key == "color"@ || key == "color_depth"@ || key == "colour"@ {
        if value.len() > 0 {
            Defaults { color: Some(lowered), ..d }
        } else {
            d
        }
    } else if key == "ansi_music"@ || key == "ansimusic"@ || key == "music"@ {
        Defaults {
            ansi_music: Some(
                lowered == "1"@ || lowered == "true"@ || lowered == "yes"@ || lowered == "on"@,
            ),
            ..d
        }
    } else if key == "audio_chunk_ms"@ || key == "chunk_ms"@ {
        Defaults { audio_chunk_ms: clamped_number(value, 10, 250), ..d }
    } else if key == "audio_rate"@ || key == "rate"@ || key == "audio_hz"@ {
        Defaults { audio_rate: clamped_number(value, 5512, 44100), ..d }
    } else if key == "audio_resync_secs"@ || key == "resync_secs"@ {
        Defaults { audio_resync_secs: resync_number(value), ..d }
    } else {
        d
    }
}

/// Is this (trimmed) line empty, a comment or a section header, or without `=`?
pub open spec fn is_skipped(line: Seq<char>) -> bool {
    line.len() == 0 || line[0] == ';' || line[0] == '#' || line[0] == '[' || !line.contains('=')
}

/// Defaults after one line.
pub open spec fn with_ini_line(d: Defaults, line: Seq<char>) -> Defaults {
    let l = text::trimmed(line);
    if is_skipped(l) {
        d
    } else {
        let value = text::trimmed(text::after(l, '='));
        with_setting(
            d,
            text::folded(text::trimmed(text::before(l, '='))),
            value,
            text::folded(value),
        )
    }
}

pub open spec fn with_ini_lines(d: Defaults, lines: Seq<Seq<char>>) -> Defaults
    decreases lines.len(),
{
    if lines.len() == 0 {
        d
    } else {
        with_ini_lines(with_ini_line(d, lines[0]), lines.drop_first())
    }
}

fn parse_clamped(v: &[char], low: u32, high: u32) -> (r: Option<u32>)
    ensures
        r == clamped_number(v@, low as nat, high as nat),
{
    match text::parse_number(v, 0xffff_ffff) {
        Some(n) => Some(
            if n < low as u64 {
                low
            } else if n > high as u64 {
                high
            } else {
                n as u32
            },
        ),
        None => None,
    }
}

/// Take one setting of the ini: its key in lower case, its value, and its value in
/// lower case. Unknown keys are ignored.
pub fn apply_setting(ini: DoorIni, key: &str, value: &str, lowered: &str) -> (r: DoorIni)
    ensures
        r@ == with_setting(ini@, key@, value@, lowered@),
{
    let mut ini = ini;
    let k = text::chars_of(key);
    let k = k.as_slice();
    let v = text::chars_of(value);
    if text::is_word(k, "roms") {
        if v.len() > 0 {
            ini.roms = Some(value.to_owned());
        }
    } else if text::is_word(k, "fps") {
        ini.fps = Some(value.to_owned());
    } else if text::is_word(k, "color") || text::is_word(k, "color_depth") || text::is_word(
        k,
        "colour",
    ) {
        if v.len() > 0 {
            ini.color = Some(lowered.to_owned());
        }
    } else if text::is_word(k, "ansi_music") || text::is_word(k, "ansimusic") || text::is_word(
        k,
        "music",
    ) {
        let l = text::chars_of(lowered);
        let l = l.as_slice();
        let on = text::is_word(l, "1") || text::is_word(l, "true") || text::is_word(l, "yes")
            || text::is_word(l, "on");
        ini.ansi_music = Some(on);
    } else if text::is_word(k, "audio_chunk_ms") || text::is_word(k, "chunk_ms") {
        ini.audio_chunk_ms = parse_clamped(v.as_slice(), 10, 250);
    } else if text::is_word(k, "audio_rate") || text::is_word(k, "rate") || text::is_word(
        k,
        "audio_hz",
    ) {
        ini.audio_rate = parse_clamped(v.as_slice(), 5512, 44100);
    } else if text::is_word(k, "audio_resync_secs") || text::is_word(k, "resync_secs") {
        // 0 disables; otherwise clamp to a sane interval window.
        ini.audio_resync_secs = match text::parse_number(v.as_slice(), 0xffff_ffff) {
            Some(0) => Some(0),
            _ => parse_clamped(v.as_slice(), 5, 3600),
        };
    }
    ini
}

fn apply_ini_line(ini: DoorIni, line: &[char]) -> (r: DoorIni)
    ensures
        r@ == with_ini_line(ini@, line@),
{
    let l = text::trim(line);
    if l.len() == 0 || l[0] == ';' || l[0] == '#' || l[0] == '[' {
        return ini;
    }
    match text::text_after(l, '=') {
        Some(value) => {
            let key = text::string_of(text::text_before(l, '='));
            let value = text::string_of(text::trim(value));
            let key = text::lower_trimmed(key.as_str());
            let lowered = text::to_lowercase(value.as_str());
            apply_setting(ini, key.as_str(), value.as_str(), lowered.as_str())
        },
        None => ini,
    }
}

/// Read `lameboy.ini`. Comments (`;`, `#`), section headers and unknown keys are
/// ignored; a later line overrides an earlier one.
pub fn parse_door_ini(contents: &str) -> (r: DoorIni)
    ensures
        r@ == with_ini_lines(no_defaults(), text::lines(contents@)),
{
    let all = text::chars_of(contents);
    let lines = text::split_lines(all.as_slice());
    let ghost l = text::texts(lines@);
    let mut ini = DoorIni::default();
    let mut i: usize = 0;
    assert(l.skip(0) == l);
    while i < lines.len()
        invariant
            i <= lines.len(),
            l == text::texts(lines@),
            with_ini_lines(no_defaults(), l) == with_ini_lines(ini@, l.skip(i as int)),
        decreases lines.len() - i,
    {
        assert(l.skip(i as int).drop_first() == l.skip(i + 1));
        assert(l[i as int] == lines@[i as int]@);
        ini = apply_ini_line(ini, lines[i].as_slice());
        i += 1;
    }
    ini
}

// ---------------------------------------------------------------------------
// Laws of preferences
// ---------------------------------------------------------------------------

/// A value that one line can hold and that reading does not change: no line
/// break in it, no white space around it.
pub open spec fn is_plain(v: Seq<char>) -> bool {
    !v.contains('\n') && text::trimmed(v) == v
}

/// A plain value that is in lower case already.
pub open spec fn is_plain_code(v: Option<Seq<char>>) -> bool {
    v is Some ==> is_plain(v->0) && text::folded(v->0) == v->0
}

/// Preferences as the door itself produces them.
pub open spec fn is_storable(p: Prefs, dirs: Seq<Seq<char>>) -> bool {
    &&& p.roms_dir is Some ==> is_plain(p.roms_dir->0) && dirs.contains(p.roms_dir->0)
    &&& is_plain_code(p.sound)
    &&& is_plain_code(p.filter)
    &&& is_plain_code(p.screen)
    &&& is_plain_code(p.color)
    &&& is_plain_code(p.dmg_palette)
    &&& p.last_game is Some ==> is_plain(p.last_game->0) && p.last_game->0.len() > 0
}

proof fn lemma_trimmed_end_last(s: Seq<char>)
    requires
        text::trimmed_end(s) == s,
        s.len() > 0,
    ensures
        !text::is_whitespace(s.last()),
{
    if text::is_whitespace(s.last()) {
        text::lemma_trimmed_end_len(s.drop_last());
    }
}

/// Reading a text that starts with an entry: the entry's line is taken first.
proof fn lemma_entry_first(
    p: Prefs,
    key: Seq<char>,
    v: Seq<char>,
    rest: Seq<char>,
    dirs: Seq<Seq<char>>,
)
    requires
        is_plain(v),
        !key.contains('\n'),
        key.len() > 0,
        key.last() != '\r',
    ensures
        with_lines(p, text::lines(entry(key, Some(v)) + rest), dirs) == with_lines(
            with_line(p, key + v, dirs),
            text::lines(rest),
            dirs,
        ),
{
    let line = key + v;
    assert(!line.contains('\n')) by {
        if line.contains('\n') {
            let i = choose|i: int| 0 <= i < line.len() && line[i] == '\n';
            if i < key.len() {
                assert(key[i] == '\n');
            } else {
                assert(v[i - key.len()] == '\n');
            }
        }
    }
    assert(entry(key, Some(v)) + rest == line + seq!['\n'] + rest);
    text::lemma_lines_cons(line, rest);
    assert(line.last() != '\r') by {
        if v.len() > 0 {
            text::lemma_trimmed_is_trimmed(v);
            lemma_trimmed_end_last(v);
            assert(line.last() == v.last());
        } else {
            assert(line.last() == key.last());
        }
    }
    assert(text::without_cr(line) == line);
    let l = seq![line] + text::lines(rest);
    assert(l[0] == line);
    assert(l.drop_first() == text::lines(rest));
}

/// The keys of a preferences file, told apart by their first letters.
proof fn lemma_keys(key: Seq<char>, v: Seq<char>)
    requires
        key == "roms_dir="@ || key == "render="@ || key == "sound="@ || key == "filter="@ || key
            == "screen="@ || key == "color="@ || key == "dmg_palette="@ || key == "last_game="@,
    ensures
        !key.contains('\n'),
        key.len() > 0,
        key.last() != '\r',
        (key + v).skip(key.len() as int) == v,
        text::begins_with(key + v, "roms_dir="@) == (key == "roms_dir="@),
        text::begins_with(key + v, "render="@) == (key == "render="@),
        text::begins_with(key + v, "sound="@) == (key == "sound="@),
        !text::begins_with(key + v, "audio="@),
        text::begins_with(key + v, "filter="@) == (key == "filter="@),
        text::begins_with(key + v, "screen="@) == (key == "screen="@),
        text::begins_with(key + v, "color="@) == (key == "color="@),
        text::begins_with(key + v, "dmg_palette="@) == (key == "dmg_palette="@),
        text::begins_with(key + v, "last_game="@) == (key == "last_game="@),
{
    reveal_strlit("roms_dir=");
    reveal_strlit("render=");
    reveal_strlit("sound=");
    reveal_strlit("audio=");
    reveal_strlit("filter=");
    reveal_strlit("screen=");
    reveal_strlit("color=");
    reveal_strlit("dmg_palette=");
    reveal_strlit("last_game=");
    let line = key + v;
    assert(line.skip(key.len() as int) == v);
    assert(line.take(key.len() as int) == key);
    assert(line[0] == key[0] && line[1] == key[1]);
    lemma_prefix_letters(line, "roms_dir="@);
    lemma_prefix_letters(line, "render="@);
    lemma_prefix_letters(line, "sound="@);
    lemma_prefix_letters(line, "audio="@);
    lemma_prefix_letters(line, "filter="@);
    lemma_prefix_letters(line, "screen="@);
    lemma_prefix_letters(line, "color="@);
    lemma_prefix_letters(line, "dmg_palette="@);
    lemma_prefix_letters(line, "last_game="@);
}

proof fn lemma_prefix_letters(line: Seq<char>, key: Seq<char>)
    requires
        key.len() >= 2,
    ensures
        text::begins_with(line, key) ==> line[0] == key[0] && line[1] == key[1],
{
    if text::begins_with(line, key) {
        assert(line.take(key.len() as int)[0] == line[0]);
        assert(line.take(key.len() as int)[1] == line[1]);
    }
}

/// An entry that is not there leaves the text as it is.
proof fn lemma_no_entry(key: Seq<char>, rest: Seq<char>)
    ensures
        entry(key, None) + rest == rest,
{
    assert(entry(key, None) + rest =~= rest);
}

proof fn lemma_reassociate(
    a: Seq<char>,
    b: Seq<char>,
    c: Seq<char>,
    d: Seq<char>,
    e: Seq<char>,
    f: Seq<char>,
    g: Seq<char>,
    h: Seq<char>,
)
    ensures
        a + b + c + d + e + f + g + h == a + (b + (c + (d + (e + (f + (g + (h + Seq::empty()))))))),
{
    let t8 = h + Seq::empty();
    assert(t8 == h);
    let t7 = g + t8;
    assert(a + b + c + d + e + f + g + h == a + b + c + d + e + f + t7);
    let t6 = f + t7;
    assert(a + b + c + d + e + f + t7 == a + b + c + d + e + t6);
    let t5 = e + t6;
    assert(a + b + c + d + e + t6 == a + b + c + d + t5);
    let t4 = d + t5;
    assert(a + b + c + d + t5 == a + b + c + t4);
    let t3 = c + t4;
    assert(a + b + c + t4 == a + b + t3);
    assert(a + b + t3 == a + (b + t3));
}

/// One key of a stored file, read back.
proof fn lemma_key_reads_back(
    p: Prefs,
    key: Seq<char>,
    v: Option<Seq<char>>,
    rest: Seq<char>,
    dirs: Seq<Seq<char>>,
)
    requires
        key == "roms_dir="@ || key == "render="@ || key == "sound="@ || key == "filter="@ || key
            == "screen="@ || key == "color="@ || key == "dmg_palette="@ || key == "last_game="@,
        v is Some ==> is_plain(v->0),
    ensures
        with_lines(p, text::lines(entry(key, v) + rest), dirs) == with_lines(
            match v {
                Some(v) => with_line(p, key + v, dirs),
                None => p,
            },
            text::lines(rest),
            dirs,
        ),
{
    match v {
        Some(v) => {
            lemma_keys(key, v);
            lemma_entry_first(p, key, v, rest, dirs);
        },
        None => {
            lemma_no_entry(key, rest);
        },
    }
}

proof fn lemma_render_words(block: bool)
    ensures
        is_plain(render_word(Some(block))->0),
        (text::ascii_lowered(render_word(Some(block))->0) == text::ascii_lowered("block"@)) == block,
{
    reveal_strlit("block");
    reveal_strlit("ascii");
    let w = render_word(Some(block))->0;
    assert(text::trimmed(w) == w);
    if !block {
        assert(text::ascii_lowered("ascii"@)[0] == 'a');
        assert(text::ascii_lowered("block"@)[0] == 'b');
    }
}

/// **Preferences persist.** Reading a file that was saved gives back what was
/// saved, when the values are such as the door produces: one line each, lower-case
/// codes, a ROM directory that still exists.
pub proof fn law_saved_preferences_load(p: Prefs, dirs: Seq<Seq<char>>)
    requires
        is_storable(p, dirs),
    ensures
        loaded(saved(p), dirs) == p,
{
    let e1 = entry("roms_dir="@, p.roms_dir);
    let e2 = entry("render="@, render_word(p.render_block));
    let e3 = entry("sound="@, p.sound);
    let e4 = entry("filter="@, p.filter);
    let e5 = entry("screen="@, p.screen);
    let e6 = entry("color="@, p.color);
    let e7 = entry("dmg_palette="@, p.dmg_palette);
    let e8 = entry("last_game="@, p.last_game);
    let none = Seq::<char>::empty();
    lemma_reassociate(e1, e2, e3, e4, e5, e6, e7, e8);
    let r8 = none;
    let r7 = e8 + r8;
    let r6 = e7 + r7;
    let r5 = e6 + r6;
    let r4 = e5 + r5;
    let r3 = e4 + r4;
    let r2 = e3 + r3;
    let r1 = e2 + r2;
    if let Some(b) = p.render_block {
        lemma_render_words(b);
    }
    let p0 = unset();
    let p1 = Prefs { roms_dir: p.roms_dir, ..p0 };
    let p2 = Prefs { render_block: p.render_block, ..p1 };
    let p3 = Prefs { sound: p.sound, ..p2 };
    let p4 = Prefs { filter: p.filter, ..p3 };
    let p5 = Prefs { screen: p.screen, ..p4 };
    let p6 = Prefs { color: p.color, ..p5 };
    let p7 = Prefs { dmg_palette: p.dmg_palette, ..p6 };
    let p8 = Prefs { last_game: p.last_game, ..p7 };
    lemma_step(p0, "roms_dir="@, p.roms_dir, dirs);
    lemma_key_reads_back(p0, "roms_dir="@, p.roms_dir, r1, dirs);
    assert(with_lines(p0, text::lines(saved(p)), dirs) == with_lines(p1, text::lines(r1), dirs));
    lemma_step(p1, "render="@, render_word(p.render_block), dirs);
    lemma_key_reads_back(p1, "render="@, render_word(p.render_block), r2, dirs);
    assert(with_lines(p1, text::lines(r1), dirs) == with_lines(p2, text::lines(r2), dirs));
    lemma_step(p2, "sound="@, p.sound, dirs);
    lemma_key_reads_back(p2, "sound="@, p.sound, r3, dirs);
    assert(with_lines(p2, text::lines(r2), dirs) == with_lines(p3, text::lines(r3), dirs));
    lemma_step(p3, "filter="@, p.filter, dirs);
    lemma_key_reads_back(p3, "filter="@, p.filter, r4, dirs);
    assert(with_lines(p3, text::lines(r3), dirs) == with_lines(p4, text::lines(r4), dirs));
    lemma_step(p4, "screen="@, p.screen, dirs);
    lemma_key_reads_back(p4, "screen="@, p.screen, r5, dirs);
    assert(with_lines(p4, text::lines(r4), dirs) == with_lines(p5, text::lines(r5), dirs));
    lemma_step(p5, "color="@, p.color, dirs);
    lemma_key_reads_back(p5, "color="@, p.color, r6, dirs);
    assert(with_lines(p5, text::lines(r5), dirs) == with_lines(p6, text::lines(r6), dirs));
    lemma_step(p6, "dmg_palette="@, p.dmg_palette, dirs);
    lemma_key_reads_back(p6, "dmg_palette="@, p.dmg_palette, r7, dirs);
    assert(with_lines(p6, text::lines(r6), dirs) == with_lines(p7, text::lines(r7), dirs));
    lemma_step(p7, "last_game="@, p.last_game, dirs);
    lemma_key_reads_back(p7, "last_game="@, p.last_game, r8, dirs);
    assert(with_lines(p7, text::lines(r7), dirs) == with_lines(p8, text::lines(r8), dirs));
    assert(p8 == p);
}

/// What a line of each key does.
proof fn lemma_step(p: Prefs, key: Seq<char>, v: Option<Seq<char>>, dirs: Seq<Seq<char>>)
    requires
        key == "roms_dir="@ || key == "render="@ || key == "sound="@ || key == "filter="@ || key
            == "screen="@ || key == "color="@ || key == "dmg_palette="@ || key == "last_game="@,
        v is Some ==> text::trimmed(v->0) == v->0,
    ensures
        v is Some ==> {
            let after = with_line(p, key + v->0, dirs);
            &&& key == "roms_dir="@ && dirs.contains(v->0) ==> after == (Prefs {
                roms_dir: v,
                ..p
            })
            &&& key == "render="@ ==> after == (Prefs {
                render_block: Some(
                    text::ascii_lowered(v->0) == text::ascii_lowered("block"@),
                ),
                ..p
            })
            &&& key == "sound="@ ==> after == (Prefs { sound: Some(text::folded(v->0)), ..p })
            &&& key == "filter="@ ==> after == (Prefs { filter: Some(text::folded(v->0)), ..p })
            &&& key == "screen="@ ==> after == (Prefs { screen: Some(text::folded(v->0)), ..p })
            &&& key == "color="@ ==> after == (Prefs { color: Some(text::folded(v->0)), ..p })
            &&& key == "dmg_palette="@ ==> after == (Prefs {
                dmg_palette: Some(text::folded(v->0)),
                ..p
            })
            &&& key == "last_game="@ && v->0.len() > 0 ==> after == (Prefs { last_game: v, ..p })
        },
{
    if v is Some {
        lemma_keys(key, v->0);
        lemma_keys_differ();
    }
}

proof fn lemma_keys_differ()
    ensures
        "roms_dir="@ != "render="@,
        "sound="@ != "screen="@,
        "roms_dir="@[0] == 'r',
        "render="@[0] == 'r',
        "sound="@[0] == 's',
        "screen="@[0] == 's',
        "filter="@[0] == 'f',
        "color="@[0] == 'c',
        "dmg_palette="@[0] == 'd',
        "last_game="@[0] == 'l',
{
    reveal_strlit("roms_dir=");
    reveal_strlit("render=");
    reveal_strlit("sound=");
    reveal_strlit("filter=");
    reveal_strlit("screen=");
    reveal_strlit("color=");
    reveal_strlit("dmg_palette=");
    reveal_strlit("last_game=");
    assert("roms_dir="@[1] == 'o' && "render="@[1] == 'e');
    assert("sound="@[1] == 'o' && "screen="@[1] == 'c');
}

/// The tuning stays in the windows that the stream supports, whatever the ini
/// says: lines, comments and all.
pub proof fn law_tuning_stays_in_bounds(d: Defaults, lines: Seq<Seq<char>>)
    requires
        in_bounds(d),
    ensures
        in_bounds(with_ini_lines(d, lines)),
        in_bounds(no_defaults()),
        ({
            let t = tuning_of(with_ini_lines(d, lines));
            &&& 10 <= t.chunk_ms <= 250
            &&& 5512 <= t.rate <= 44100
            &&& t.resync_secs == 0 || 5 <= t.resync_secs <= 3600
        }),
    decreases lines.len(),
{
    if lines.len() > 0 {
        law_tuning_stays_in_bounds(with_ini_line(d, lines[0]), lines.drop_first());
    }
}

/// The audio settings that are there lie in their windows.
pub open spec fn in_bounds(d: Defaults) -> bool {
    &&& d.audio_chunk_ms is Some ==> 10 <= d.audio_chunk_ms->0 <= 250
    &&& d.audio_rate is Some ==> 5512 <= d.audio_rate->0 <= 44100
    &&& d.audio_resync_secs is Some ==> d.audio_resync_secs->0 == 0 || 5 <= d.audio_resync_secs->0
        <= 3600
}

/// Callers whose keys differ once folded to file-name characters have files of
/// their own, and none shares the file of the layout without users.
pub proof fn law_preference_files_are_isolated(a: Seq<char>, b: Seq<char>)
    requires
        a.len() > 0,
        b.len() > 0,
    ensures
        text::sanitized(a) != text::sanitized(b) ==> file_name(Some(a)) != file_name(Some(b)),
        file_name(Some(a)) != file_name(None),
{
    reveal_strlit("config-");
    reveal_strlit("config");
    let fa = file_name(Some(a));
    let fb = file_name(Some(b));
    if fa == fb {
        assert(fa.skip(7) == text::sanitized(a));
        assert(fb.skip(7) == text::sanitized(b));
    }
    assert(fa.len() > 6);
}

/// A value that stands on a line of its own as it is: not empty, no line feed, no
/// white space around it.
pub open spec fn is_value(v: Seq<char>) -> bool {
    v.len() > 0 && !v.contains('\n') && !text::is_whitespace(v[0]) && !text::is_whitespace(v.last())
}

/// The name of a setting, written in any ASCII case.
pub open spec fn is_spelling(key: Seq<char>, name: Seq<char>) -> bool {
    text::is_ascii(key) && text::ascii_lowered(key) == name
}

/// A line of `lameboy.ini`.
pub open spec fn ini_line(key: Seq<char>, value: Seq<char>) -> Seq<char> {
    key + " = "@ + value
}

/// What `lameboy.ini` sets when it holds that one line.
pub open spec fn ini_of_line(key: Seq<char>, value: Seq<char>) -> Defaults {
    with_ini_lines(no_defaults(), text::lines(ini_line(key, value) + seq!['\n']))
}

/// A name that settings have: lower-case letters and underscores.
pub open spec fn is_name(name: Seq<char>) -> bool {
    name.len() > 0 && forall|i: int|
        0 <= i < name.len() ==> 'a' <= #[trigger] name[i] <= 'z' || name[i] == '_'
}

proof fn lemma_trimmed_text(s: Seq<char>)
    requires
        s.len() > 0,
        !text::is_whitespace(s[0]),
        !text::is_whitespace(s.last()),
    ensures
        text::trimmed(s) == s,
        text::trimmed(s + seq![' ']) == s,
        text::trimmed(seq![' '] + s) == s,
{
    assert((s + seq![' ']).drop_last() == s);
    assert((seq![' '] + s).drop_first() == s);
}

proof fn lemma_spelling(key: Seq<char>, name: Seq<char>)
    requires
        is_name(name),
        is_spelling(key, name),
    ensures
        key.len() > 0,
        !text::is_whitespace(key[0]),
        !text::is_whitespace(key.last()),
        key[0] != ';' && key[0] != '#' && key[0] != '[',
        !key.contains('='),
        !key.contains('\n'),
{
    assert(text::ascii_lowered(key).len() == key.len());
    assert forall|i: int| 0 <= i < key.len() implies key[i] != '=' && key[i] != '\n'
        && !text::is_whitespace(key[i]) && key[i] != ';' && key[i] != '#' && key[i] != '[' by {
        assert(text::ascii_lower(key[i]) == name[i]);
    }
}

proof fn lemma_ini_line(d: Defaults, key: Seq<char>, name: Seq<char>, value: Seq<char>)
    requires
        is_name(name),
        is_spelling(key, name),
        is_value(value),
    ensures
        with_ini_line(d, ini_line(key, value)) == with_setting(
            d,
            name,
            value,
            text::folded(value),
        ),
        text::lines(ini_line(key, value) + seq!['\n']) == seq![ini_line(key, value)],
        ini_of_line(key, value) == with_setting(no_defaults(), name, value, text::folded(value)),
{
    reveal_strlit(" = ");
    lemma_spelling(key, name);
    let l = ini_line(key, value);
    assert(l[0] == key[0] && l.last() == value.last());
    lemma_trimmed_text(l);
    lemma_trimmed_text(key);
    lemma_trimmed_text(value);
    let i = key.len() as int + 1;
    assert(l[i] == '=');
    assert forall|k: int| 0 <= k < i implies l[k] != '=' by {
        if k < key.len() {
            assert(key.contains(key[k]));
        }
    }
    text::lemma_index_of(l, '=', i);
    assert(text::before(l, '=') == key + seq![' ']);
    assert(text::after(l, '=') == seq![' '] + value);
    assert(l.contains('='));
    assert(!l.contains('\n')) by {
        if l.contains('\n') {
            let k = choose|k: int| 0 <= k < l.len() && l[k] == '\n';
            if k < key.len() {
                assert(key.contains(key[k]));
            } else if k >= key.len() + 3 {
                assert(value.contains(value[k - key.len() - 3]));
            }
        }
    }
    let none = Seq::<char>::empty();
    assert(l + seq!['\n'] == l + seq!['\n'] + none);
    text::lemma_lines_cons(l, none);
    assert(text::lines(none) == Seq::<Seq<char>>::empty());
    assert(text::without_cr(l) == l);
    let all = seq![l];
    assert(text::lines(l + seq!['\n']) == all);
    let d0 = no_defaults();
    assert(all.drop_first() == Seq::<Seq<char>>::empty());
    let d1 = with_ini_line(d0, l);
    assert(with_ini_lines(d1, Seq::<Seq<char>>::empty()) == d1);
    assert(with_ini_lines(d0, all) == with_ini_lines(d1, all.drop_first()));
}

proof fn lemma_setting_names()
    ensures
        is_name("roms"@) && is_name("fps"@) && is_name("color"@) && is_name("color_depth"@)
            && is_name("colour"@) && is_name("ansi_music"@) && is_name("ansimusic"@) && is_name(
            "music"@,
        ) && is_name("audio_chunk_ms"@) && is_name("chunk_ms"@) && is_name("audio_rate"@)
            && is_name("rate"@) && is_name("audio_hz"@) && is_name("audio_resync_secs"@)
            && is_name("resync_secs"@),
        "roms"@.len() == 4 && "rate"@.len() == 4 && "roms"@[1] != "rate"@[1],
        "fps"@.len() == 3 && "colour"@.len() == 6 && "ansimusic"@.len() == 9 && "audio_chunk_ms"@.len()
            == 14 && "audio_resync_secs"@.len() == 17,
        "color"@.len() == 5 && "music"@.len() == 5 && "color"@[0] != "music"@[0],
        "color_depth"@.len() == 11 && "resync_secs"@.len() == 11 && "color_depth"@[0]
            != "resync_secs"@[0],
        "ansi_music"@.len() == 10 && "audio_rate"@.len() == 10 && "ansi_music"@[1]
            != "audio_rate"@[1],
        "chunk_ms"@.len() == 8 && "audio_hz"@.len() == 8 && "chunk_ms"@[0] != "audio_hz"@[0],
{
    reveal_strlit("roms");
    reveal_strlit("fps");
    reveal_strlit("color");
    reveal_strlit("color_depth");
    reveal_strlit("colour");
    reveal_strlit("ansi_music");
    reveal_strlit("ansimusic");
    reveal_strlit("music");
    reveal_strlit("audio_chunk_ms");
    reveal_strlit("chunk_ms");
    reveal_strlit("audio_rate");
    reveal_strlit("rate");
    reveal_strlit("audio_hz");
    reveal_strlit("audio_resync_secs");
    reveal_strlit("resync_secs");
}

/// **`ansi_music` is on for 1, true, yes and on.** In a file of that one line, with the
/// name (or one of its short forms) and the word in any ASCII case, one of these words
/// turns the music on, and every other word turns it off. Nothing else is set.
pub proof fn law_ini_ansi_music(key: Seq<char>, word: Seq<char>)
    requires
        is_spelling(key, "ansi_music"@) || is_spelling(key, "ansimusic"@) || is_spelling(
            key,
            "music"@,
        ),
        is_value(word),
        text::is_ascii(word),
    ensures
        ({
            let w = text::ascii_lowered(word);
            ini_of_line(key, word) == (Defaults {
                ansi_music: Some(w == "1"@ || w == "true"@ || w == "yes"@ || w == "on"@),
                ..no_defaults()
            })
        }),
{
    lemma_setting_names();
    let name = text::ascii_lowered(key);
    lemma_ini_line(no_defaults(), key, name, word);
}

/// The ROM directory and the frame rate are taken as they are written, the color depth
/// in lower case.
pub proof fn law_ini_texts(key: Seq<char>, value: Seq<char>)
    requires
        is_value(value),
        text::is_ascii(value),
    ensures
        is_spelling(key, "roms"@) ==> ini_of_line(key, value) == (Defaults {
            roms: Some(value),
            ..no_defaults()
        }),
        is_spelling(key, "fps"@) ==> ini_of_line(key, value) == (Defaults {
            fps: Some(value),
            ..no_defaults()
        }),
        is_spelling(key, "color"@) || is_spelling(key, "colour"@) || is_spelling(
            key,
            "color_depth"@,
        ) ==> ini_of_line(key, value) == (Defaults {
            color: Some(text::ascii_lowered(value)),
            ..no_defaults()
        }),
{
    lemma_setting_names();
    let name = text::ascii_lowered(key);
    if name == "roms"@ || name == "fps"@ || name == "color"@ || name == "colour"@ || name
        == "color_depth"@ {
        if text::is_ascii(key) {
            lemma_ini_line(no_defaults(), key, name, value);
        }
    }
}

/// A number, held to a window.
pub open spec fn held(n: u32, low: u32, high: u32) -> u32 {
    if n < low {
        low
    } else if n > high {
        high
    } else {
        n
    }
}

/// The numbers of the streamed audio are held to their windows: clips of 10 to 250 ms,
/// rates of 5512 to 44100 Hz, resyncs every 5 to 3600 seconds, or never for 0.
pub proof fn law_ini_numbers(key: Seq<char>, n: u32)
    ensures
        ({
            let ini = ini_of_line(key, text::decimal(n as nat));
            &&& is_spelling(key, "audio_chunk_ms"@) || is_spelling(key, "chunk_ms"@) ==> ini == (
            Defaults { audio_chunk_ms: Some(held(n, 10, 250)), ..no_defaults() })
            &&& is_spelling(key, "audio_rate"@) || is_spelling(key, "rate"@) || is_spelling(
                key,
                "audio_hz"@,
            ) ==> ini == (Defaults { audio_rate: Some(held(n, 5512, 44100)), ..no_defaults() })
            &&& is_spelling(key, "audio_resync_secs"@) || is_spelling(key, "resync_secs"@) ==> ini
                == (Defaults {
                audio_resync_secs: Some(
                    if n == 0 {
                        0
                    } else {
                        held(n, 5, 3600)
                    },
                ),
                ..no_defaults()
            })
        }),
{
    lemma_setting_names();
    let name = text::ascii_lowered(key);
    let value = text::decimal(n as nat);
    text::lemma_decimal(n as nat);
    text::lemma_digits_without(value, '\n');
    assert(text::is_digit(value[0]));
    assert(text::is_digit(value[value.len() - 1]));
    text::lemma_number_of_decimal(n as nat, 0xffff_ffff);
    if text::is_ascii(key) && (name == "audio_chunk_ms"@ || name == "chunk_ms"@ || name
        == "audio_rate"@ || name == "rate"@ || name == "audio_hz"@ || name == "audio_resync_secs"@
        || name == "resync_secs"@) {
        lemma_ini_line(no_defaults(), key, name, value);
    }
}

/// Comments, section headers, lines without an `=`, and unknown names set nothing.
pub proof fn law_ini_ignores_the_rest(d: Defaults, line: Seq<char>, key: Seq<char>, value: Seq<char>)
    requires
        is_value(line),
        is_value(value),
        text::is_ascii(key),
        is_name(text::ascii_lowered(key)),
    ensures
        line[0] == ';' || line[0] == '#' || line[0] == '[' || !line.contains('=') ==> with_ini_line(
            d,
            line,
        ) == d,
        with_ini_line(d, Seq::empty()) == d,
        ({
            let name = text::ascii_lowered(key);
            name != "roms"@ && name != "fps"@ && name != "color"@ && name != "color_depth"@ && name
                != "colour"@ && name != "ansi_music"@ && name != "ansimusic"@ && name != "music"@
                && name != "audio_chunk_ms"@ && name != "chunk_ms"@ && name != "audio_rate"@ && name
                != "rate"@ && name != "audio_hz"@ && name != "audio_resync_secs"@ && name
                != "resync_secs"@ ==> with_ini_line(d, ini_line(key, value)) == d
        }),
{
    lemma_trimmed_text(line);
    lemma_ini_line(d, key, text::ascii_lowered(key), value);
}

/// Lines are taken one after the other, so a later one overrides an earlier one.
pub proof fn law_ini_lines_follow_each_other(d: Defaults, a: Seq<Seq<char>>, b: Seq<Seq<char>>)
    ensures
        with_ini_lines(d, a + b) == with_ini_lines(with_ini_lines(d, a), b),
    decreases a.len(),
{
    if a.len() == 0 {
        assert(a + b == b);
    } else {
        law_ini_lines_follow_each_other(with_ini_line(d, a[0]), a.drop_first(), b);
        assert((a + b).drop_first() == a.drop_first() + b);
        assert((a + b)[0] == a[0]);
    }
}

/// Without settings the stream has clips of 40 ms at 22050 Hz and resyncs once a
/// minute; what is set is taken.
pub proof fn law_tuning(d: Defaults)
    ensures
        tuning_of(no_defaults()) == (ApcTuning { chunk_ms: 40, rate: 22050, resync_secs: 60 }),
        d.audio_chunk_ms matches Some(v) ==> tuning_of(d).chunk_ms == v,
        d.audio_rate matches Some(v) ==> tuning_of(d).rate == v,
        d.audio_resync_secs matches Some(v) ==> tuning_of(d).resync_secs == v,
        d.audio_chunk_ms is None ==> tuning_of(d).chunk_ms == 40,
        d.audio_rate is None ==> tuning_of(d).rate == 22050,
        d.audio_resync_secs is None ==> tuning_of(d).resync_secs == 60,
{
}

/// What is saved is one line to a preference, under its name.
pub proof fn law_saved_lines(p: Prefs, v: Seq<char>)
    ensures
        saved(unset()) == Seq::<char>::empty(),
        saved(Prefs { roms_dir: Some(v), ..unset() }) == "roms_dir="@ + v + seq!['\n'],
        saved(Prefs { sound: Some(v), ..unset() }) == "sound="@ + v + seq!['\n'],
        saved(Prefs { filter: Some(v), ..unset() }) == "filter="@ + v + seq!['\n'],
        saved(Prefs { screen: Some(v), ..unset() }) == "screen="@ + v + seq!['\n'],
        saved(Prefs { color: Some(v), ..unset() }) == "color="@ + v + seq!['\n'],
        saved(Prefs { dmg_palette: Some(v), ..unset() }) == "dmg_palette="@ + v + seq!['\n'],
        saved(Prefs { last_game: Some(v), ..unset() }) == "last_game="@ + v + seq!['\n'],
        saved(Prefs { render_block: Some(true), ..unset() }) == "render="@ + "block"@ + seq!['\n'],
        saved(Prefs { render_block: Some(false), ..unset() }) == "render="@ + "ascii"@
            + seq!['\n'],
{
}

/// The file that a caller's preferences are in: `config-` and the key, in which what is
/// no ASCII letter or digit is an underscore; `config` without a key.
pub proof fn law_preference_file(user: Seq<char>, i: int)
    requires
        0 <= i < user.len(),
    ensures
        file_name(None) == "config"@,
        file_name(Some(Seq::empty())) == "config"@,
        file_name(Some(user)).len() == 7 + user.len(),
        file_name(Some(user)).take(7) == "config-"@,
        ({
            let c = user[i];
            file_name(Some(user))[7 + i] == if '0' <= c <= '9' || 'a' <= c <= 'z' || 'A' <= c
                <= 'Z' {
                c
            } else {
                '_'
            }
        }),
{
    reveal_strlit("config-");
    assert(file_name(Some(user)).take(7) =~= "config-"@);
}

/// What a line of a preference file means, name by name: codes are folded to lower
/// case, `render` is blocks for the word `block` in any case and else ASCII, a ROM
/// directory counts only where it exists, and other lines mean nothing.
pub proof fn law_preference_lines(p: Prefs, v: Seq<char>, dirs: Seq<Seq<char>>)
    requires
        is_value(v),
        text::is_ascii(v),
    ensures
        ({
            let low = text::ascii_lowered(v);
            &&& with_line(p, "sound="@ + v, dirs) == (Prefs { sound: Some(low), ..p })
            &&& with_line(p, "filter="@ + v, dirs) == (Prefs { filter: Some(low), ..p })
            &&& with_line(p, "screen="@ + v, dirs) == (Prefs { screen: Some(low), ..p })
            &&& with_line(p, "color="@ + v, dirs) == (Prefs { color: Some(low), ..p })
            &&& with_line(p, "dmg_palette="@ + v, dirs) == (Prefs { dmg_palette: Some(low), ..p })
            &&& with_line(p, "last_game="@ + v, dirs) == (Prefs { last_game: Some(v), ..p })
            &&& with_line(p, "render="@ + v, dirs) == (Prefs {
                render_block: Some(low == "block"@),
                ..p
            })
            &&& dirs.contains(v) ==> with_line(p, "roms_dir="@ + v, dirs) == (Prefs {
                roms_dir: Some(v),
                ..p
            })
        }),
{
    lemma_trimmed_text(v);
    lemma_step(p, "sound="@, Some(v), dirs);
    lemma_step(p, "filter="@, Some(v), dirs);
    lemma_step(p, "screen="@, Some(v), dirs);
    lemma_step(p, "color="@, Some(v), dirs);
    lemma_step(p, "dmg_palette="@, Some(v), dirs);
    lemma_step(p, "last_game="@, Some(v), dirs);
    lemma_step(p, "render="@, Some(v), dirs);
    lemma_step(p, "roms_dir="@, Some(v), dirs);
    reveal_strlit("block");
    assert(text::ascii_lowered("block"@) == "block"@);
}

/// A line without any of the names means nothing.
pub proof fn law_other_lines_mean_nothing(p: Prefs, line: Seq<char>, dirs: Seq<Seq<char>>)
    requires
        line.len() > 0,
        line[0] != 'r' && line[0] != 's' && line[0] != 'a' && line[0] != 'f' && line[0] != 'c'
            && line[0] != 'd' && line[0] != 'l',
    ensures
        with_line(p, line, dirs) == p,
        with_line(p, Seq::empty(), dirs) == p,
{
    lemma_first_letters();
    assert forall|k: Seq<char>| k.len() > 0 && #[trigger] text::begins_with(line, k) implies k[0]
        == line[0] by {
        assert(line.take(k.len() as int)[0] == line[0]);
    }
}

proof fn lemma_first_letters()
    ensures
        "roms_dir="@.len() > 0 && "roms_dir="@[0] == 'r',
        "render="@.len() > 0 && "render="@[0] == 'r',
        "sound="@.len() > 0 && "sound="@[0] == 's',
        "audio="@.len() > 0 && "audio="@[0] == 'a',
        "filter="@.len() > 0 && "filter="@[0] == 'f',
        "screen="@.len() > 0 && "screen="@[0] == 's',
        "color="@.len() > 0 && "color="@[0] == 'c',
        "dmg_palette="@.len() > 0 && "dmg_palette="@[0] == 'd',
        "last_game="@.len() > 0 && "last_game="@[0] == 'l',
{
    reveal_strlit("roms_dir=");
    reveal_strlit("render=");
    reveal_strlit("sound=");
    reveal_strlit("audio=");
    reveal_strlit("filter=");
    reveal_strlit("screen=");
    reveal_strlit("color=");
    reveal_strlit("dmg_palette=");
    reveal_strlit("last_game=");
}

/// The on/off toggle of old files: `on`, in any case, is ANSI music and anything else
/// is none, unless the file has said before what the sound is.
pub proof fn law_old_audio_toggle(p: Prefs, v: Seq<char>, dirs: Seq<Seq<char>>)
    requires
        is_value(v),
    ensures
        with_line(p, "audio="@ + v, dirs) == (if p.sound is Some {
            p
        } else if text::ascii_lowered(v) == "on"@ {
            Prefs { sound: Some("ansi"@), ..p }
        } else {
            Prefs { sound: Some("off"@), ..p }
        }),
{
    lemma_first_letters();
    reveal_strlit("on");
    let line = "audio="@ + v;
    lemma_trimmed_text(v);
    assert(line[0] == 'a');
    assert forall|k: Seq<char>| k.len() > 0 && #[trigger] text::begins_with(line, k) implies k[0]
        == 'a' by {
        assert(line.take(k.len() as int)[0] == line[0]);
    }
    assert(line.take("audio="@.len() as int) == "audio="@);
    assert(line.skip("audio="@.len() as int) == v);
    assert(text::ascii_lowered("on"@) == "on"@);
}

/// Only directories that exist are taken from a file; the last such line counts.
pub proof fn law_missing_directories_are_ignored(p: Prefs, v: Seq<char>, dirs: Seq<Seq<char>>)
    requires
        is_value(v),
        !dirs.contains(v),
    ensures
        with_line(p, "roms_dir="@ + v, dirs) == p,
{
    lemma_trimmed_text(v);
    lemma_keys("roms_dir="@, v);
}

} // verus!
