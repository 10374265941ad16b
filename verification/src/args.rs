//! The command line. Flags are read independently of the positional ROM argument,
//! so the interactive menu can be reached even when global flags like --mute are
//! present (a headless BBS door is launched as `terminal_gameboy --mute`, with no
//! ROM, and shows its ROM browser).

use crate::color;
use crate::color::ColorSetting;
use crate::config;
use crate::config::DoorIni;
use crate::door32;
use crate::door32::Door32;
use crate::framebuffer;
use crate::framebuffer::DmgPalette;
use crate::renderer::RenderMode;
use crate::text;
use vstd::prelude::*;

verus! {

// ---------------------------------------------------------------------------
// Single arguments
// ---------------------------------------------------------------------------

/// A value that isn't empty.
pub open spec fn some_text(s: Seq<char>) -> Option<Seq<char>> {
    if s.len() > 0 {
        Some(s)
    } else {
        None
    }
}

/// The value of the first `--flag <value>` or `--flag=<value>`. An empty or missing
/// value is none.
pub open spec fn flag_value(args: Seq<Seq<char>>, flag: Seq<char>) -> Option<Seq<char>>
    decreases args.len(),
{
    if args.len() == 0 {
        None
    } else if text::begins_with(args[0], flag + "="@) {
        some_text(args[0].skip(flag.len() as int + 1))
    } else if args[0] == flag {
        if args.len() > 1 {
            some_text(args[1])
        } else {
            None
        }
    } else {
        flag_value(args.skip(1), flag)
    }
}

/// A flag stands somewhere among the arguments.
pub open spec fn is_given(args: Seq<Seq<char>>, flag: Seq<char>) -> bool {
    exists|i: int| 0 <= i < args.len() && #[trigger] args[i] == flag
}

/// The flags that take a value.
pub open spec fn takes_value(arg: Seq<char>) -> bool {
    arg == "--user"@ || arg == "--fps"@ || arg == "--dropfile"@ || arg == "--roms"@ || arg
        == "--color"@ || arg == "--dmg"@
}

/// The first argument that is neither a flag nor the value of one.
pub open spec fn first_positional(args: Seq<Seq<char>>) -> Option<Seq<char>>
    decreases args.len(),
{
    if args.len() == 0 {
        None
    } else if takes_value(args[0]) {
        if args.len() > 1 {
            first_positional(args.skip(2))
        } else {
            None
        }
    } else if args[0].len() > 0 && args[0][0] == '-' {
        first_positional(args.skip(1))
    } else {
        Some(args[0])
    }
}

fn if_some(v: &[char]) -> (r: Option<String>)
    ensures
        config::opt(r) == some_text(v@),
{
    if v.len() > 0 {
        Some(text::string_of(v))
    } else {
        None
    }
}

/// Extract a `--flag <value>` / `--flag=<value>` argument value, if present.
pub fn parse_value(args: &[String], flag: &str) -> (r: Option<String>)
    ensures
        config::opt(r) == flag_value(config::strings(args@), flag@),
{
    let ghost all = config::strings(args@);
    let mut eq = flag.to_owned();
    eq.append("=");
    proof {
        reveal_strlit("=");
    }
    let mut i: usize = 0;
    assert(all.skip(0) =~= all);
    while i < args.len()
        invariant
            all == config::strings(args@),
            eq@ == flag@ + "="@,
            eq@.len() == flag@.len() + 1,
            i <= args.len(),
            flag_value(all, flag@) == flag_value(all.skip(i as int), flag@),
        decreases args.len() - i,
    {
        let ghost rest = all.skip(i as int);
        assert(rest.skip(1) =~= all.skip(i + 1));
        let v = text::chars_of(args[i].as_str());
        if let Some(value) = text::after_prefix(v.as_slice(), eq.as_str()) {
            return if_some(value);
        }
        if text::same_str(args[i].as_str(), flag) {
            if i + 1 < args.len() {
                return if_some(text::chars_of(args[i + 1].as_str()).as_slice());
            }
            return None;
        }
        i += 1;
    }
    None
}

/// Whether a flag stands among the arguments.
pub fn has_flag(args: &[String], flag: &str) -> (r: bool)
    ensures
        r == is_given(config::strings(args@), flag@),
{
    let ghost all = config::strings(args@);
    let mut i: usize = 0;
    while i < args.len()
        invariant
            all == config::strings(args@),
            i <= args.len(),
            forall|j: int| 0 <= j < i ==> #[trigger] all[j] != flag@,
        decreases args.len() - i,
    {
        if text::same_str(args[i].as_str(), flag) {
            assert(all[i as int] == flag@);
            return true;
        }
        i += 1;
    }
    false
}

fn is_value_flag(arg: &str) -> (r: bool)
    ensures
        r == takes_value(arg@),
{
    let v = text::chars_of(arg);
    let w = v.as_slice();
    text::is_word(w, "--user") || text::is_word(w, "--fps") || text::is_word(w, "--dropfile")
        || text::is_word(w, "--roms") || text::is_word(w, "--color") || text::is_word(w, "--dmg")
}

/// First non-flag argument (if any): the ROM path. `args` starts with the program's
/// name. The value that follows a value-taking flag is skipped so it isn't mistaken
/// for a ROM path.
pub fn positional_rom(args: &[String]) -> (r: Option<String>)
    ensures
        config::opt(r) == (if args@.len() == 0 {
            None
        } else {
            first_positional(config::strings(args@).skip(1))
        }),
{
    if args.len() == 0 {
        return None;
    }
    let ghost all = config::strings(args@);
    let mut i: usize = 1;
    while i < args.len()
        invariant
            all == config::strings(args@),
            1 <= i <= args.len(),
            first_positional(all.skip(1)) == first_positional(all.skip(i as int)),
        decreases args.len() - i,
    {
        let ghost rest = all.skip(i as int);
        assert(rest.skip(1) =~= all.skip(i + 1));
        if is_value_flag(args[i].as_str()) {
            if args.len() - i < 2 {
                return None;
            }
            assert(rest.skip(2) =~= all.skip(i + 2));
            i += 2;
        } else {
            let v = text::chars_of(args[i].as_str());
            if v.len() > 0 && v[0] == '-' {
                i += 1;
            } else {
                return Some(args[i].clone());
            }
        }
    }
    None
}

/// Extract the `--dropfile <path>` value (a DOOR32.SYS).
pub fn parse_dropfile(args: &[String]) -> (r: Option<String>)
    ensures
        config::opt(r) == flag_value(config::strings(args@), "--dropfile"@),
{
    parse_value(args, "--dropfile")
}

/// Extract the `--user <id>` / `--user=<id>` value, if present. This is the
/// BBS user number (Synchronet substitutes `%4` etc. in the door command line)
/// used to isolate saves and persist per-user preferences.
pub fn parse_user(args: &[String]) -> (r: Option<String>)
    ensures
        config::opt(r) == flag_value(config::strings(args@), "--user"@),
{
    parse_value(args, "--user")
}

/// Extract the `--fps <n>` / `--fps=<n>` transmit cap, as written (a decimal
/// fraction).
pub fn fps_text(args: &[String]) -> (r: Option<String>)
    ensures
        config::opt(r) == flag_value(config::strings(args@), "--fps"@),
{
    parse_value(args, "--fps")
}

/// Whether the usage is asked for.
pub fn wants_help(args: &[String]) -> (r: bool)
    ensures
        r == (is_given(config::strings(args@), "--help"@) || is_given(
            config::strings(args@),
            "-h"@,
        )),
{
    has_flag(args, "--help") || has_flag(args, "-h")
}

// ---------------------------------------------------------------------------
// The options of a session
// ---------------------------------------------------------------------------

/// What the command line, the sysop's defaults and the dropfile come to.
pub struct Options {
    /// The released door build has no local audio device, so this is effectively
    /// always on; it's still honored for builds with one.
    pub force_mute: bool,
    /// ANSI music is offered (the caller still chooses in the menu).
    pub ansi_music: bool,
    pub cli_mode: Option<RenderMode>,
    /// Color depth default; a caller's saved choice overrides it.
    pub color: ColorSetting,
    /// DMG palette default; a caller's saved choice overrides it.
    pub dmg_palette: DmgPalette,
    /// The per-user key.
    pub user: Option<String>,
    /// The ROM directory, a sysop setting.
    pub roms: Option<String>,
    /// A ROM to play at once.
    pub rom: Option<String>,
}

pub open spec fn mode_given(args: Seq<Seq<char>>) -> Option<RenderMode> {
    if is_given(args, "--block"@) {
        Some(RenderMode::Block)
    } else if is_given(args, "--ascii"@) {
        Some(RenderMode::Ascii)
    } else {
        None
    }
}

/// The setting that a text means, if there is a text and it means one.
pub open spec fn setting_of(s: Option<Seq<char>>) -> Option<ColorSetting> {
    match s {
        Some(v) => color::setting_named(text::folded(text::trimmed(v))),
        None => None,
    }
}

/// `--color`, else the sysop's default, else Auto (probe + truecolor default).
pub open spec fn color_chosen(args: Seq<Seq<char>>, ini: Option<Seq<char>>) -> ColorSetting {
    match setting_of(flag_value(args, "--color"@)) {
        Some(c) => c,
        None => match setting_of(ini) {
            Some(c) => c,
            None => ColorSetting::Auto,
        },
    }
}

/// `--dmg`, else gray.
pub open spec fn palette_chosen(args: Seq<Seq<char>>) -> DmgPalette {
    match flag_value(args, "--dmg"@) {
        Some(v) => match framebuffer::palette_named(text::folded(text::trimmed(v))) {
            Some(p) => p,
            None => DmgPalette::Gray,
        },
        None => DmgPalette::Gray,
    }
}

/// The first of two that is there.
pub open spec fn either(a: Option<Seq<char>>, b: Option<Seq<char>>) -> Option<Seq<char>> {
    match a {
        Some(s) => Some(s),
        None => b,
    }
}

/// The user key of a dropfile, if there is one.
pub open spec fn door_key(door: Option<Door32>) -> Option<Seq<char>> {
    match door {
        Some(d) => door32::key_of(d.user_number),
        None => None,
    }
}

fn parse_color(s: &Option<String>) -> (r: Option<ColorSetting>)
    ensures
        r == setting_of(config::opt(*s)),
{
    match s {
        Some(v) => ColorSetting::parse(v.as_str()),
        None => None,
    }
}

fn choose_color(args: &[String], ini: &DoorIni) -> (r: ColorSetting)
    ensures
        r == color_chosen(config::strings(args@), ini@.color),
{
    if let Some(c) = parse_color(&parse_value(args, "--color")) {
        return c;
    }
    match parse_color(&ini.color) {
        Some(c) => c,
        None => ColorSetting::Auto,
    }
}

fn choose_palette(args: &[String]) -> (r: DmgPalette)
    ensures
        r == palette_chosen(config::strings(args@)),
{
    if let Some(v) = parse_value(args, "--dmg") {
        if let Some(p) = DmgPalette::parse(v.as_str()) {
            return p;
        }
    }
    DmgPalette::Gray
}

fn choose_mode(args: &[String]) -> (r: Option<RenderMode>)
    ensures
        r == mode_given(config::strings(args@)),
{
    if has_flag(args, "--block") {
        Some(RenderMode::Block)
    } else if has_flag(args, "--ascii") {
        Some(RenderMode::Ascii)
    } else {
        None
    }
}

/// The options as values.
pub struct Chosen {
    pub force_mute: bool,
    pub ansi_music: bool,
    pub cli_mode: Option<RenderMode>,
    pub color: ColorSetting,
    pub dmg_palette: DmgPalette,
    pub user: Option<Seq<char>>,
    pub roms: Option<Seq<char>>,
    pub rom: Option<Seq<char>>,
}

impl View for Options {
    type V = Chosen;

    open spec fn view(&self) -> Chosen {
        Chosen {
            force_mute: self.force_mute,
            ansi_music: self.ansi_music,
            cli_mode: self.cli_mode,
            color: self.color,
            dmg_palette: self.dmg_palette,
            user: config::opt(self.user),
            roms: config::opt(self.roms),
            rom: config::opt(self.rom),
        }
    }
}

/// The options of a command line (the program's name first), the sysop's defaults and
/// a dropfile's user key.
pub open spec fn chosen(
    args: Seq<Seq<char>>,
    ini: config::Defaults,
    key: Option<Seq<char>>,
) -> Chosen {
    Chosen {
        force_mute: is_given(args, "--mute"@),
        ansi_music: is_given(args, "--ansi-music"@) || ini.ansi_music != Some(false),
        cli_mode: mode_given(args),
        color: color_chosen(args, ini.color),
        dmg_palette: palette_chosen(args),
        user: either(flag_value(args, "--user"@), key),
        roms: either(flag_value(args, "--roms"@), ini.roms),
        rom: if args.len() == 0 {
            None
        } else {
            first_positional(args.skip(1))
        },
    }
}

/// Resolve the options. Command-line flags override the sysop's defaults, so the
/// usual door command line stays short. The per-user key is the explicit --user, else
/// the dropfile's user number, else none.
pub fn resolve(args: &[String], ini: &DoorIni, door: &Option<Door32>) -> (r: Options)
    ensures
        ({
            let a = config::strings(args@);
            &&& r.force_mute == is_given(a, "--mute"@)
            &&& r.ansi_music == (is_given(a, "--ansi-music"@) || ini@.ansi_music != Some(false))
            &&& r.cli_mode == mode_given(a)
            &&& r.color == color_chosen(a, ini@.color)
            &&& r.dmg_palette == palette_chosen(a)
            &&& config::opt(r.user) == either(flag_value(a, "--user"@), door_key(*door))
            &&& config::opt(r.roms) == either(flag_value(a, "--roms"@), ini@.roms)
            &&& config::opt(r.rom) == (if a.len() == 0 {
                None
            } else {
                first_positional(a.skip(1))
            })
        }),
        r@ == chosen(config::strings(args@), ini@, door_key(*door)),
{
    let music = match ini.ansi_music {
        Some(on) => on,
        None => true,
    };
    let user = match parse_user(args) {
        Some(u) => Some(u),
        None => match door {
            Some(d) => d.user_key(),
            None => None,
        },
    };
    let roms = match parse_value(args, "--roms") {
        Some(p) => Some(p),
        None => match &ini.roms {
            Some(p) => Some(p.clone()),
            None => None,
        },
    };
    Options {
        force_mute: has_flag(args, "--mute"),
        ansi_music: has_flag(args, "--ansi-music") || music,
        cli_mode: choose_mode(args),
        color: choose_color(args, ini),
        dmg_palette: choose_palette(args),
        user,
        roms,
        rom: positional_rom(args),
    }
}

// ---------------------------------------------------------------------------
// Usage
// ---------------------------------------------------------------------------

pub open spec fn usage_text(program: Seq<char>) -> Seq<char> {
    "ASCII GameBoy Emulator\n\nUsage: "@ + program + " <rom_file.gb> [OPTIONS]\n\n"@
        + "Options:\n  --ascii       ASCII art mode with brightness characters (default)\n  --block       Unicode block mode with solid half-blocks\n  --color MODE  Output color depth: auto (default) | truecolor | 256 | 16\n  --dmg PAL     Non-color (DMG) game palette: gray (default) | green\n  --mute        Disable audio output\n  --ansi-music  Approximate music via ANSI/terminal-beeper tones\n\n"@
        + "Controls:\n  Arrow keys    D-Pad\n  Z             A button\n  X             B button\n  Enter         Start\n  Space         Select\n  Q / Esc       Quit\n"@
}

/// The usage, for a program's name.
pub fn usage(program: &str) -> (s: String)
    ensures
        s@ == usage_text(program@),
{
    let mut s = "ASCII GameBoy Emulator\n\nUsage: ".to_owned();
    s.append(program);
    s.append(" <rom_file.gb> [OPTIONS]\n\n");
    s.append(
        "Options:\n  --ascii       ASCII art mode with brightness characters (default)\n  --block       Unicode block mode with solid half-blocks\n  --color MODE  Output color depth: auto (default) | truecolor | 256 | 16\n  --dmg PAL     Non-color (DMG) game palette: gray (default) | green\n  --mute        Disable audio output\n  --ansi-music  Approximate music via ANSI/terminal-beeper tones\n\n",
    );
    s.append(
        "Controls:\n  Arrow keys    D-Pad\n  Z             A button\n  X             B button\n  Enter         Start\n  Space         Select\n  Q / Esc       Quit\n",
    );
    s
}

// ---------------------------------------------------------------------------
// Laws
// ---------------------------------------------------------------------------

/// Flags stand anywhere: one that takes no value can be put in front without
/// changing which ROM is named or what another flag's value is.
pub proof fn law_plain_flags_are_independent(args: Seq<Seq<char>>, plain: Seq<char>, flag: Seq<char>)
    requires
        plain.len() > 0,
        plain[0] == '-',
        !takes_value(plain),
        plain != flag,
        !text::begins_with(plain, flag + "="@),
    ensures
        first_positional(seq![plain] + args) == first_positional(args),
        flag_value(seq![plain] + args, flag) == flag_value(args, flag),
        forall|other: Seq<char>|
            other != plain ==> #[trigger] is_given(seq![plain] + args, other) == is_given(args, other),
{
    let all = seq![plain] + args;
    assert(all.skip(1) =~= args);
    assert forall|other: Seq<char>| other != plain implies #[trigger] is_given(all, other)
        == is_given(args, other) by {
        if is_given(all, other) {
            let i = choose|i: int| 0 <= i < all.len() && #[trigger] all[i] == other;
        }
        if is_given(args, other) {
            let i = choose|i: int| 0 <= i < args.len() && #[trigger] args[i] == other;
        }
    }
}

/// An explicit command-line flag always overrides the sysop's defaults: with one,
/// they make no difference.
pub proof fn law_flags_override_the_defaults(
    args: Seq<Seq<char>>,
    ini: Option<Seq<char>>,
    other: Option<Seq<char>>,
)
    ensures
        setting_of(flag_value(args, "--color"@)) is Some ==> color_chosen(args, ini) == color_chosen(
            args,
            other,
        ),
        flag_value(args, "--roms"@) is Some ==> either(flag_value(args, "--roms"@), ini) == either(
            flag_value(args, "--roms"@),
            other,
        ),
        flag_value(args, "--user"@) is Some ==> either(flag_value(args, "--user"@), ini) == either(
            flag_value(args, "--user"@),
            other,
        ),
{
}

/// A flag's value is read the same in both forms, and is never taken for the ROM.
pub proof fn law_both_forms_agree(args: Seq<Seq<char>>, flag: Seq<char>, value: Seq<char>)
    requires
        takes_value(flag),
    ensures
        flag_value(seq![flag, value] + args, flag) == some_text(value),
        flag_value(seq![flag + "="@ + value] + args, flag) == some_text(value),
        first_positional(seq![flag, value] + args) == first_positional(args),
        first_positional(seq![flag + "="@ + value] + args) == first_positional(args),
{
    reveal_strlit("=");
    reveal_strlit("--user");
    reveal_strlit("--fps");
    reveal_strlit("--dropfile");
    reveal_strlit("--roms");
    reveal_strlit("--color");
    reveal_strlit("--dmg");
    let two = seq![flag, value] + args;
    let one = seq![flag + "="@ + value] + args;
    assert(two.skip(2) =~= args);
    assert(one.skip(1) =~= args);
    let joined = flag + "="@ + value;
    assert(!text::begins_with(flag, flag + "="@));
    assert(joined.take((flag + "="@).len() as int) =~= flag + "="@);
    assert(joined[flag.len() as int] == '=');
    assert(!takes_value(joined));
}

/// The flags that take a value, and no others.
pub proof fn law_value_flags(arg: Seq<char>)
    ensures
        takes_value(arg) <==> arg == "--user"@ || arg == "--fps"@ || arg == "--dropfile"@ || arg
            == "--roms"@ || arg == "--color"@ || arg == "--dmg"@,
{
}

/// The flags without a value count wherever they stand: `--mute` keeps the door silent,
/// `--ansi-music` offers the music even where the sysop turned it off, `--block` and
/// `--ascii` choose the graphics (blocks, where both are given), and nothing else does.
pub proof fn law_plain_flags(
    args: Seq<Seq<char>>,
    ini: config::Defaults,
    key: Option<Seq<char>>,
)
    ensures
        chosen(args, ini, key).force_mute <==> args.contains("--mute"@),
        chosen(args, ini, key).ansi_music <==> args.contains("--ansi-music"@) || ini.ansi_music
            != Some(false),
        chosen(args, ini, key).cli_mode == Some(RenderMode::Block) <==> args.contains("--block"@),
        chosen(args, ini, key).cli_mode == Some(RenderMode::Ascii) <==> args.contains("--ascii"@)
            && !args.contains("--block"@),
{
    lemma_given(args, "--mute"@);
    lemma_given(args, "--ansi-music"@);
    lemma_given(args, "--block"@);
    lemma_given(args, "--ascii"@);
}

proof fn lemma_given(args: Seq<Seq<char>>, flag: Seq<char>)
    ensures
        is_given(args, flag) <==> args.contains(flag),
{
    if args.contains(flag) {
        let i = choose|i: int| 0 <= i < args.len() && args[i] == flag;
        assert(args[i] == flag);
    }
}

/// A flag with a value, in front, says what it is for: `--user` the caller's key before
/// that of a dropfile, `--roms` the directory before that of the sysop's defaults,
/// `--color` the depth before theirs, `--dmg` the palette.
pub proof fn law_valued_flags(
    args: Seq<Seq<char>>,
    ini: config::Defaults,
    key: Option<Seq<char>>,
    value: Seq<char>,
)
    requires
        value.len() > 0,
    ensures
        chosen(seq!["--user"@, value] + args, ini, key).user == Some(value),
        chosen(seq!["--roms"@, value] + args, ini, key).roms == Some(value),
        color::setting_named(text::folded(text::trimmed(value))) matches Some(c) ==> chosen(
            seq!["--color"@, value] + args,
            ini,
            key,
        ).color == c,
        framebuffer::palette_named(text::folded(text::trimmed(value))) matches Some(p) ==> chosen(
            seq!["--dmg"@, value] + args,
            ini,
            key,
        ).dmg_palette == p,
        flag_value(seq!["--fps"@, value] + args, "--fps"@) == Some(value),
        flag_value(seq!["--dropfile"@, value] + args, "--dropfile"@) == Some(value),
{
    law_both_forms_agree(args, "--user"@, value);
    law_both_forms_agree(args, "--roms"@, value);
    law_both_forms_agree(args, "--color"@, value);
    law_both_forms_agree(args, "--dmg"@, value);
    law_both_forms_agree(args, "--fps"@, value);
    law_both_forms_agree(args, "--dropfile"@, value);
}

/// Without flags: the caller is the one of the dropfile, the directory and the depth are
/// those of the sysop's defaults (an automatic depth without any), the palette is gray,
/// and no game is named.
pub proof fn law_no_flags(program: Seq<char>, ini: config::Defaults, key: Option<Seq<char>>)
    requires
        program.len() > 0,
        program[0] != '-',
    ensures
        ({
            let c = chosen(seq![program], ini, key);
            &&& !c.force_mute
            &&& c.cli_mode is None
            &&& c.user == key
            &&& c.roms == ini.roms
            &&& ini.color is None ==> c.color == ColorSetting::Auto
            &&& ini.color matches Some(w) ==> c.color == (match color::setting_named(
                text::folded(text::trimmed(w)),
            ) {
                Some(named) => named,
                None => ColorSetting::Auto,
            })
            &&& c.dmg_palette == DmgPalette::Gray
            &&& c.rom is None
        }),
{
    lemma_dashes();
    let args = seq![program];
    assert(args.skip(1) == Seq::<Seq<char>>::empty());
    assert(flag_value(args.skip(1), "--user"@) is None);
    lemma_not_the_flag(args, "--user"@);
    lemma_not_the_flag(args, "--roms"@);
    lemma_not_the_flag(args, "--color"@);
    lemma_not_the_flag(args, "--dmg"@);
    assert(args[0] == program);
}

proof fn lemma_not_the_flag(args: Seq<Seq<char>>, flag: Seq<char>)
    requires
        args.len() == 1,
        args[0].len() > 0,
        args[0][0] != '-',
        flag.len() > 0,
        flag[0] == '-',
    ensures
        flag_value(args, flag) is None,
{
    reveal_strlit("=");
    if text::begins_with(args[0], flag + "="@) {
        assert(args[0].take((flag + "="@).len() as int)[0] == args[0][0]);
        assert((flag + "="@)[0] == '-');
    }
    assert(args[0] != flag);
    let none = Seq::<Seq<char>>::empty();
    assert(args.skip(1) == none);
    assert(flag_value(none, flag) is None);
}

proof fn lemma_dashes()
    ensures
        "--user"@.len() > 0 && "--user"@[0] == '-',
        "--roms"@.len() > 0 && "--roms"@[0] == '-',
        "--color"@.len() > 0 && "--color"@[0] == '-',
        "--dmg"@.len() > 0 && "--dmg"@[0] == '-',
        "--fps"@.len() > 0 && "--fps"@[0] == '-',
        "--dropfile"@.len() > 0 && "--dropfile"@[0] == '-',
        "--mute"@.len() > 0 && "--mute"@[0] == '-',
        "--ansi-music"@.len() > 0 && "--ansi-music"@[0] == '-',
        "--block"@.len() > 0 && "--block"@[0] == '-',
        "--ascii"@.len() > 0 && "--ascii"@[0] == '-',
{
    reveal_strlit("--user");
    reveal_strlit("--roms");
    reveal_strlit("--color");
    reveal_strlit("--dmg");
    reveal_strlit("--fps");
    reveal_strlit("--dropfile");
    reveal_strlit("--mute");
    reveal_strlit("--ansi-music");
    reveal_strlit("--block");
    reveal_strlit("--ascii");
}

/// The first argument behind the program's name that is no flag, nor a flag's value, is
/// the game to play.
pub proof fn law_first_plain_argument_is_the_game(
    program: Seq<char>,
    rom: Seq<char>,
    rest: Seq<Seq<char>>,
    ini: config::Defaults,
    key: Option<Seq<char>>,
)
    requires
        rom.len() > 0,
        rom[0] != '-',
    ensures
        chosen(seq![program, rom] + rest, ini, key).rom == Some(rom),
        first_positional(Seq::empty()) is None,
{
    lemma_dashes();
    let args = seq![program, rom] + rest;
    assert(args.skip(1)[0] == rom);
}

} // verus!
