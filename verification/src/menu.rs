//! The ROM browser's settings and its game list.

use crate::config;
use crate::path;
use crate::text;
use vstd::prelude::*;

verus! {

/// ROM rows shown until the terminal answers a size probe. The live count is
/// derived from the real terminal height (see `visible_for`).
pub const VISIBLE_ROWS: usize = 12;

/// Row of the "Games:" header and the first ROM row. Everything above (the hint
/// lines, the wordmark + settings band) is fixed height; the list below grows to
/// fill whatever screen height the caller has.
pub const GAMES_HEADER_Y: u16 = 9;

pub const GAMES_START_Y: u16 = 10;

/// Type-ahead buffer resets after this much idle time (in nanoseconds) between
/// keystrokes.
pub const TYPEAHEAD_RESET: u64 = 1_000_000_000;

/// Ideal render size in character cells (≈1 char-row per 2 Game Boy pixels).
pub const BEST_COLS: u16 = 162;

pub const BEST_ROWS: u16 = 74;

pub open spec fn rows_for(term_rows: int) -> int {
    if term_rows - 11 < 4 {
        4
    } else {
        term_rows - 11
    }
}

/// ROM rows that fit under the header on a `term_rows`-tall screen (1 row of
/// bottom margin), floored so the list is always usable.
pub fn visible_for(term_rows: u16) -> (r: usize)
    ensures
        r == rows_for(term_rows as int),
{
    if term_rows < 15 {
        4
    } else {
        term_rows as usize - 11
    }
}

// ---------------------------------------------------------------------------
// Settings
// ---------------------------------------------------------------------------

/// Filter applied to the game list, by ROM type.
#[derive(Clone, Copy, PartialEq, Eq, Debug, Structural)]
pub enum RomFilter {
    All,
    /// .gb
    GameBoy,
    /// .gbc
    GameBoyColor,
}

pub open spec fn filter_after(f: RomFilter) -> RomFilter {
    match f {
        RomFilter::All => RomFilter::GameBoy,
        RomFilter::GameBoy => RomFilter::GameBoyColor,
        RomFilter::GameBoyColor => RomFilter::All,
    }
}

pub open spec fn filter_before(f: RomFilter) -> RomFilter {
    match f {
        RomFilter::All => RomFilter::GameBoyColor,
        RomFilter::GameBoy => RomFilter::All,
        RomFilter::GameBoyColor => RomFilter::GameBoy,
    }
}

pub open spec fn filter_label(f: RomFilter) -> Seq<char> {
    match f {
        RomFilter::All => "All "@,
        RomFilter::GameBoy => "GB  "@,
        RomFilter::GameBoyColor => "GBC "@,
    }
}

pub open spec fn filter_code(f: RomFilter) -> Seq<char> {
    match f {
        RomFilter::All => "all"@,
        RomFilter::GameBoy => "gb"@,
        RomFilter::GameBoyColor => "gbc"@,
    }
}

/// The filter that a code means.
pub open spec fn filter_coded(s: Seq<char>) -> RomFilter {
    if s == "gb"@ {
        RomFilter::GameBoy
    } else if s == "gbc"@ {
        RomFilter::GameBoyColor
    } else {
        RomFilter::All
    }
}

/// Does a (lowercase) extension pass the filter?
pub open spec fn passes(f: RomFilter, ext: Seq<char>) -> bool {
    match f {
        RomFilter::All => true,
        RomFilter::GameBoy => ext == "gb"@,
        RomFilter::GameBoyColor => ext == "gbc"@,
    }
}

impl RomFilter {
    pub fn next(self) -> (r: Self)
        ensures
            r == filter_after(self),
    {
        match self {
            RomFilter::All => RomFilter::GameBoy,
            RomFilter::GameBoy => RomFilter::GameBoyColor,
            RomFilter::GameBoyColor => RomFilter::All,
        }
    }

    pub fn prev(self) -> (r: Self)
        ensures
            r == filter_before(self),
    {
        match self {
            RomFilter::All => RomFilter::GameBoyColor,
            RomFilter::GameBoy => RomFilter::All,
            RomFilter::GameBoyColor => RomFilter::GameBoy,
        }
    }

    /// Short label shown in the toggle.
    pub fn label(self) -> (r: &'static str)
        ensures
            r@ == filter_label(self),
    {
        match self {
            RomFilter::All => "All ",
            RomFilter::GameBoy => "GB  ",
            RomFilter::GameBoyColor => "GBC ",
        }
    }

    /// Stable code persisted to the config file.
    pub fn code(self) -> (r: &'static str)
        ensures
            r@ == filter_code(self),
    {
        match self {
            RomFilter::All => "all",
            RomFilter::GameBoy => "gb",
            RomFilter::GameBoyColor => "gbc",
        }
    }

    pub fn from_code(s: &str) -> (r: Self)
        ensures
            r == filter_coded(s@),
    {
        let v = text::chars_of(s);
        if text::is_word(v.as_slice(), "gb") {
            RomFilter::GameBoy
        } else if text::is_word(v.as_slice(), "gbc") {
            RomFilter::GameBoyColor
        } else {
            RomFilter::All
        }
    }

    /// Does a ROM with the given (lowercased) extension pass this filter?
    pub fn matches(self, ext: &str) -> (r: bool)
        ensures
            r == passes(self, ext@),
    {
        match self {
            RomFilter::All => true,
            RomFilter::GameBoy => text::same_str(ext, "gb"),
            RomFilter::GameBoyColor => text::same_str(ext, "gbc"),
        }
    }
}

/// How game sound is delivered to the caller.
#[derive(Clone, Copy, PartialEq, Eq, Debug, Structural)]
pub enum SoundMode {
    Off,
    /// ANSI-music (MML beeps): monophonic, universal
    Ansi,
    /// SyncTERM APC PCM stream: full Game Boy audio
    Apc,
}

pub open spec fn sound_after(s: SoundMode) -> SoundMode {
    match s {
        SoundMode::Off => SoundMode::Ansi,
        SoundMode::Ansi => SoundMode::Apc,
        SoundMode::Apc => SoundMode::Off,
    }
}

pub open spec fn sound_before(s: SoundMode) -> SoundMode {
    match s {
        SoundMode::Off => SoundMode::Apc,
        SoundMode::Ansi => SoundMode::Off,
        SoundMode::Apc => SoundMode::Ansi,
    }
}

pub open spec fn sound_label(s: SoundMode) -> Seq<char> {
    match s {
        SoundMode::Off => "Off "@,
        SoundMode::Ansi => "ANSI"@,
        SoundMode::Apc => "APC "@,
    }
}

pub open spec fn sound_code(s: SoundMode) -> Seq<char> {
    match s {
        SoundMode::Off => "off"@,
        SoundMode::Ansi => "ansi"@,
        SoundMode::Apc => "apc"@,
    }
}

pub open spec fn sound_coded(s: Seq<char>) -> SoundMode {
    if s == "off"@ {
        SoundMode::Off
    } else if s == "apc"@ {
        SoundMode::Apc
    } else {
        SoundMode::Ansi
    }
}

impl SoundMode {
    pub fn next(self) -> (r: Self)
        ensures
            r == sound_after(self),
    {
        match self {
            SoundMode::Off => SoundMode::Ansi,
            SoundMode::Ansi => SoundMode::Apc,
            SoundMode::Apc => SoundMode::Off,
        }
    }

    pub fn prev(self) -> (r: Self)
        ensures
            r == sound_before(self),
    {
        match self {
            SoundMode::Off => SoundMode::Apc,
            SoundMode::Ansi => SoundMode::Off,
            SoundMode::Apc => SoundMode::Ansi,
        }
    }

    pub fn label(self) -> (r: &'static str)
        ensures
            r@ == sound_label(self),
    {
        match self {
            SoundMode::Off => "Off ",
            SoundMode::Ansi => "ANSI",
            SoundMode::Apc => "APC ",
        }
    }

    pub fn code(self) -> (r: &'static str)
        ensures
            r@ == sound_code(self),
    {
        match self {
            SoundMode::Off => "off",
            SoundMode::Ansi => "ansi",
            SoundMode::Apc => "apc",
        }
    }

    pub fn from_code(s: &str) -> (r: Self)
        ensures
            r == sound_coded(s@),
    {
        let v = text::chars_of(s);
        if text::is_word(v.as_slice(), "off") {
            SoundMode::Off
        } else if text::is_word(v.as_slice(), "apc") {
            SoundMode::Apc
        } else {
            SoundMode::Ansi
        }
    }
}

/// Terminal screen-size handling.
#[derive(Clone, Copy, PartialEq, Eq, Debug, Structural)]
pub enum ScreenSize {
    /// Use the caller's terminal as-is (the list fills whatever height it has).
    Auto,
    /// Ask the terminal to resize to the ideal size for the game render, and
    /// restore the original size on exit. No-ops on terminals that ignore the
    /// resize sequence (e.g. SyncTERM), where Auto behavior remains.
    Best,
}

pub open spec fn screen_after(s: ScreenSize) -> ScreenSize {
    match s {
        ScreenSize::Auto => ScreenSize::Best,
        ScreenSize::Best => ScreenSize::Auto,
    }
}

pub open spec fn screen_label(s: ScreenSize) -> Seq<char> {
    match s {
        ScreenSize::Auto => "Auto"@,
        ScreenSize::Best => "Best"@,
    }
}

pub open spec fn screen_code(s: ScreenSize) -> Seq<char> {
    match s {
        ScreenSize::Auto => "auto"@,
        ScreenSize::Best => "best"@,
    }
}

pub open spec fn screen_coded(s: Seq<char>) -> ScreenSize {
    if s == "best"@ {
        ScreenSize::Best
    } else {
        ScreenSize::Auto
    }
}

impl ScreenSize {
    pub fn next(self) -> (r: Self)
        ensures
            r == screen_after(self),
    {
        match self {
            ScreenSize::Auto => ScreenSize::Best,
            ScreenSize::Best => ScreenSize::Auto,
        }
    }

    pub fn prev(self) -> (r: Self)
        ensures
            r == screen_after(self),
    {
        self.next()
    }

    pub fn label(self) -> (r: &'static str)
        ensures
            r@ == screen_label(self),
    {
        match self {
            ScreenSize::Auto => "Auto",
            ScreenSize::Best => "Best",
        }
    }

    pub fn code(self) -> (r: &'static str)
        ensures
            r@ == screen_code(self),
    {
        match self {
            ScreenSize::Auto => "auto",
            ScreenSize::Best => "best",
        }
    }

    pub fn from_code(s: &str) -> (r: Self)
        ensures
            r == screen_coded(s@),
    {
        if text::same_str(s, "best") {
            ScreenSize::Best
        } else {
            ScreenSize::Auto
        }
    }
}

/// The part of the menu that holds the cursor.
///
/// The ROM directory is a sysop setting (config / --roms), NOT a caller-facing
/// option: a filesystem browser in the door would let any caller wander the
/// server's disk.
#[derive(Clone, Copy, PartialEq, Eq, Debug, Structural)]
pub enum MenuSection {
    RenderMode,
    Audio,
    Filter,
    Screen,
    GameList,
}

pub open spec fn section_after(s: MenuSection) -> MenuSection {
    match s {
        MenuSection::RenderMode => MenuSection::Audio,
        MenuSection::Audio => MenuSection::Filter,
        MenuSection::Filter => MenuSection::Screen,
        MenuSection::Screen => MenuSection::GameList,
        MenuSection::GameList => MenuSection::RenderMode,
    }
}

pub open spec fn section_before(s: MenuSection) -> MenuSection {
    match s {
        MenuSection::RenderMode => MenuSection::GameList,
        MenuSection::Audio => MenuSection::RenderMode,
        MenuSection::Filter => MenuSection::Audio,
        MenuSection::Screen => MenuSection::Filter,
        MenuSection::GameList => MenuSection::Screen,
    }
}

impl MenuSection {
    pub fn next(self) -> (r: Self)
        ensures
            r == section_after(self),
    {
        match self {
            MenuSection::RenderMode => MenuSection::Audio,
            MenuSection::Audio => MenuSection::Filter,
            MenuSection::Filter => MenuSection::Screen,
            MenuSection::Screen => MenuSection::GameList,
            MenuSection::GameList => MenuSection::RenderMode,
        }
    }

    pub fn prev(self) -> (r: Self)
        ensures
            r == section_before(self),
    {
        match self {
            MenuSection::RenderMode => MenuSection::GameList,
            MenuSection::Audio => MenuSection::RenderMode,
            MenuSection::Filter => MenuSection::Audio,
            MenuSection::Screen => MenuSection::Filter,
            MenuSection::GameList => MenuSection::Screen,
        }
    }
}

// ---------------------------------------------------------------------------
// ROMs
// ---------------------------------------------------------------------------

/// A ROM file, with the lower-case names by which it is found.
#[derive(Debug)]
pub struct Rom {
    pub path: String,
    pub name: Option<String>,
    pub lower_name: Option<String>,
    pub lower_ext: String,
}

/// What a ROM is known by.
#[verifier::ext_equal]
pub struct RomEntry {
    pub path: Seq<char>,
    pub name: Option<Seq<char>>,
    pub lower_name: Option<Seq<char>>,
    pub lower_ext: Seq<char>,
}

impl View for Rom {
    type V = RomEntry;

    open spec fn view(&self) -> RomEntry {
        RomEntry {
            path: self.path@,
            name: config::opt(self.name),
            lower_name: config::opt(self.lower_name),
            lower_ext: self.lower_ext@,
        }
    }
}

/// The ROM at a path.
pub open spec fn rom_at(p: Seq<char>) -> RomEntry {
    RomEntry {
        path: p,
        name: path::name_of(p),
        lower_name: match path::name_of(p) {
            Some(n) => Some(text::folded(n)),
            None => None,
        },
        lower_ext: match path::extension_of(p) {
            Some(e) => text::folded(e),
            None => Seq::empty(),
        },
    }
}

pub open spec fn entries(v: Seq<Rom>) -> Seq<RomEntry> {
    v.map_values(|r: Rom| r@)
}

impl Rom {
    pub fn new(p: &str) -> (r: Self)
        ensures
            r@ == rom_at(p@),
    {
        let v = text::chars_of(p);
        let (name, lower_name) = match path::file_name(v.as_slice()) {
            Some(n) => {
                let n = text::string_of(n);
                let l = text::to_lowercase(n.as_str());
                (Some(n), Some(l))
            },
            None => (None, None),
        };
        let lower_ext = match path::file_extension(v.as_slice()) {
            Some(e) => text::to_lowercase(text::string_of(e).as_str()),
            None => String::new(),
        };
        Rom { path: p.to_owned(), name, lower_name, lower_ext }
    }
}

/// Is a (lowercase) extension one of a Game Boy ROM?
pub open spec fn is_rom_ext(ext: Seq<char>) -> bool {
    ext == "gb"@ || ext == "gbc"@
}

/// The key by which ROMs are listed: the file name in lower case.
pub open spec fn sort_key(r: RomEntry) -> Seq<char> {
    match r.lower_name {
        Some(n) => n,
        None => Seq::empty(),
    }
}

/// Does `a` come no later than `b`, character by character?
pub open spec fn in_order(a: Seq<char>, b: Seq<char>) -> bool
    decreases a.len(),
{
    if a.len() == 0 {
        true
    } else if b.len() == 0 {
        false
    } else if a[0] != b[0] {
        a[0] < b[0]
    } else {
        in_order(a.drop_first(), b.drop_first())
    }
}

/// Where a ROM goes in a sorted list: behind those that come no later.
pub open spec fn insertion_point(list: Seq<RomEntry>, r: RomEntry) -> int
    decreases list.len(),
{
    if list.len() == 0 {
        0
    } else if in_order(sort_key(list.last()), sort_key(r)) {
        list.len() as int
    } else {
        insertion_point(list.drop_last(), r)
    }
}

/// The ROMs of a scan, in the order of the list: each found file once (by its
/// canonical path), sorted by name.
pub open spec fn collected(found: Seq<(RomEntry, Seq<char>)>) -> Seq<RomEntry>
    decreases found.len(),
{
    if found.len() == 0 {
        Seq::empty()
    } else {
        let before = collected(found.drop_last());
        let (entry, canonical) = found.last();
        if is_rom_ext(entry.lower_ext) && !has_path(before, canonical) {
            let r = rom_at(canonical);
            before.insert(insertion_point(before, r), r)
        } else {
            before
        }
    }
}

pub open spec fn has_path(list: Seq<RomEntry>, p: Seq<char>) -> bool {
    exists|i: int| 0 <= i < list.len() && (#[trigger] list[i]).path == p
}

/// A directory entry of a scan: its path, and its canonical path.
pub struct Found {
    pub path: String,
    pub canonical: String,
}

pub open spec fn found_views(v: Seq<Found>) -> Seq<(RomEntry, Seq<char>)> {
    v.map_values(|f: Found| (rom_at(f.path@), f.canonical@))
}

fn text_in_order(a: &[char], b: &[char]) -> (r: bool)
    ensures
        r == in_order(a@, b@),
{
    let mut i: usize = 0;
    assert(a@.skip(0) == a@ && b@.skip(0) == b@);
    while i < a.len() && i < b.len()
        invariant
            i <= a.len(),
            i <= b.len(),
            in_order(a@, b@) == in_order(a@.skip(i as int), b@.skip(i as int)),
        decreases a.len() - i,
    {
        assert(a@.skip(i as int).drop_first() == a@.skip(i + 1));
        assert(b@.skip(i as int).drop_first() == b@.skip(i + 1));
        if a[i] != b[i] {
            return a[i] < b[i];
        }
        i += 1;
    }
    i == a.len()
}

fn key_of(r: &Rom) -> (k: Vec<char>)
    ensures
        k@ == sort_key(r@),
{
    match &r.lower_name {
        Some(n) => text::chars_of(n.as_str()),
        None => Vec::new(),
    }
}

fn find_insertion_point(list: &Vec<Rom>, r: &Rom) -> (i: usize)
    ensures
        i == insertion_point(entries(list@), r@),
        i <= list.len(),
{
    let key = key_of(r);
    let ghost l = entries(list@);
    let mut n: usize = list.len();
    assert(l.take(n as int) == l);
    while n > 0
        invariant
            n <= list.len(),
            l == entries(list@),
            key@ == sort_key(r@),
            insertion_point(l, r@) == insertion_point(l.take(n as int), r@),
        decreases n,
    {
        let here = key_of(&list[n - 1]);
        assert(l.take(n as int).last() == list@[n - 1]@);
        assert(l.take(n as int).drop_last() == l.take(n - 1));
        if text_in_order(here.as_slice(), key.as_slice()) {
            return n;
        }
        n -= 1;
    }
    0
}

fn lists_path(list: &Vec<Rom>, p: &str) -> (r: bool)
    ensures
        r == has_path(entries(list@), p@),
{
    let mut i: usize = 0;
    while i < list.len()
        invariant
            i <= list.len(),
            forall|k: int| 0 <= k < i ==> (#[trigger] entries(list@)[k]).path != p@,
        decreases list.len() - i,
    {
        assert(entries(list@)[i as int] == list@[i as int]@);
        if text::same_str(list[i].path.as_str(), p) {
            return true;
        }
        i += 1;
    }
    false
}

/// Build the game list from a scan: the .gb and .gbc files, each once (canonical
/// paths avoid duplicates from symlinks or case differences), sorted by file name
/// whatever its case.
pub fn collect_roms(found: &[Found]) -> (roms: Vec<Rom>)
    ensures
        entries(roms@) == collected(found_views(found@)),
{
    let ghost all = found_views(found@);
    let mut roms: Vec<Rom> = Vec::new();
    assert(entries(roms@) == Seq::<RomEntry>::empty());
    let mut i: usize = 0;
    while i < found.len()
        invariant
            i <= found.len(),
            all == found_views(found@),
            entries(roms@) == collected(all.take(i as int)),
        decreases found.len() - i,
    {
        assert(all.take(i + 1).drop_last() == all.take(i as int));
        assert(all[i as int] == (rom_at(found@[i as int].path@), found@[i as int].canonical@));
        let here = Rom::new(found[i].path.as_str());
        let ext = here.lower_ext.as_str();
        if text::same_str(ext, "gb") || text::same_str(ext, "gbc") {
            if !lists_path(&roms, found[i].canonical.as_str()) {
                let rom = Rom::new(found[i].canonical.as_str());
                let at: usize = find_insertion_point(&roms, &rom);
                let ghost before = entries(roms@);
                let ghost entry = rom@;
                roms.insert(at, rom);
                assert(entries(roms@) == before.insert(at as int, entry));
            }
        }
        i += 1;
    }
    assert(all.take(i as int) == all);
    roms
}

/// The directories that are scanned below a ROM directory, in order. Only
/// lowercase names, to avoid duplicates on case-insensitive filesystems.
pub fn scan_dirs(dir: &str) -> (r: Vec<String>)
    ensures
        config::strings(r@) == seq![
            dir@,
            path::joined(dir@, "roms"@),
            path::joined(dir@, "games"@),
        ],
{
    let mut roms = dir.to_owned();
    path::push(&mut roms, "roms");
    let mut games = dir.to_owned();
    path::push(&mut games, "games");
    let mut r: Vec<String> = Vec::new();
    r.push(dir.to_owned());
    r.push(roms);
    r.push(games);
    assert(config::strings(r@) =~= seq![
        dir@,
        path::joined(dir@, "roms"@),
        path::joined(dir@, "games"@),
    ]);
    r
}

/// ROM directory precedence (all sysop-controlled): explicit --roms when it is a
/// directory, then a persisted one, then the working directory.
pub fn choose_roms_dir<'a>(
    explicit: Option<&'a str>,
    explicit_is_dir: bool,
    saved: Option<&'a str>,
    working: &'a str,
) -> (r: &'a str)
    ensures
        r@ == (if explicit is Some && explicit_is_dir {
            explicit->0@
        } else if saved is Some {
            saved->0@
        } else {
            working@
        }),
        r@ == dir_chosen(dir_view(explicit), explicit_is_dir, dir_view(saved), working@),
{
    match explicit {
        Some(dir) if explicit_is_dir => dir,
        _ => match saved {
            Some(dir) => dir,
            None => working,
        },
    }
}

// ---------------------------------------------------------------------------
// Laws
// ---------------------------------------------------------------------------

/// Every setting reads back from its persisted code.
pub proof fn law_codes_read_back(f: RomFilter, s: SoundMode, z: ScreenSize)
    ensures
        filter_coded(filter_code(f)) == f,
        sound_coded(sound_code(s)) == s,
        screen_coded(screen_code(z)) == z,
{
    reveal_strlit("all");
    reveal_strlit("gb");
    reveal_strlit("gbc");
    reveal_strlit("off");
    reveal_strlit("ansi");
    reveal_strlit("apc");
    reveal_strlit("auto");
    reveal_strlit("best");
    assert("gb"@.len() == 2 && "gbc"@.len() == 3 && "all"@.len() == 3);
    assert("gbc"@[0] == 'g' && "all"@[0] == 'a');
    assert("off"@[0] == 'o' && "apc"@[0] == 'a' && "ansi"@.len() == 4 && "apc"@.len() == 3);
    assert("auto"@[0] == 'a' && "best"@[0] == 'b');
}

/// Stepping a setting or a section forward and back again (or back and forward)
/// changes nothing.
pub proof fn law_steps_undo_each_other(f: RomFilter, s: SoundMode, z: ScreenSize, c: MenuSection)
    ensures
        filter_before(filter_after(f)) == f,
        filter_after(filter_before(f)) == f,
        sound_before(sound_after(s)) == s,
        sound_after(sound_before(s)) == s,
        screen_after(screen_after(z)) == z,
        section_before(section_after(c)) == c,
        section_after(section_before(c)) == c,
{
}

proof fn lemma_order_is_total(a: Seq<char>, b: Seq<char>)
    ensures
        in_order(a, b) || in_order(b, a),
    decreases a.len(),
{
    if a.len() > 0 && b.len() > 0 && a[0] == b[0] {
        lemma_order_is_total(a.drop_first(), b.drop_first());
    }
}

proof fn lemma_order_is_transitive(a: Seq<char>, b: Seq<char>, c: Seq<char>)
    requires
        in_order(a, b),
        in_order(b, c),
    ensures
        in_order(a, c),
    decreases a.len(),
{
    if a.len() > 0 && b.len() > 0 && c.len() > 0 && a[0] == b[0] && b[0] == c[0] {
        lemma_order_is_transitive(a.drop_first(), b.drop_first(), c.drop_first());
    }
}

/// The list is sorted by name.
pub open spec fn is_sorted(list: Seq<RomEntry>) -> bool {
    forall|i: int, j: int|
        0 <= i < j < list.len() ==> in_order(#[trigger] sort_key(list[i]), #[trigger] sort_key(list[j]))
}

proof fn lemma_insertion_point(list: Seq<RomEntry>, r: RomEntry)
    requires
        is_sorted(list),
    ensures
        0 <= insertion_point(list, r) <= list.len(),
        forall|i: int|
            0 <= i < insertion_point(list, r) ==> in_order(#[trigger] sort_key(list[i]), sort_key(r)),
        forall|i: int|
            insertion_point(list, r) <= i < list.len() ==> in_order(
                sort_key(r),
                #[trigger] sort_key(list[i]),
            ),
    decreases list.len(),
{
    if list.len() > 0 {
        let last = list.len() - 1;
        if in_order(sort_key(list.last()), sort_key(r)) {
            assert forall|i: int| 0 <= i < list.len() implies in_order(
                #[trigger] sort_key(list[i]),
                sort_key(r),
            ) by {
                if i < last {
                    lemma_order_is_transitive(
                        sort_key(list[i]),
                        sort_key(list[last]),
                        sort_key(r),
                    );
                }
            }
        } else {
            let front = list.drop_last();
            assert forall|i: int, j: int| 0 <= i < j < front.len() implies in_order(
                #[trigger] sort_key(front[i]),
                #[trigger] sort_key(front[j]),
            ) by {
                assert(in_order(sort_key(list[i]), sort_key(list[j])));
            }
            lemma_insertion_point(front, r);
            lemma_order_is_total(sort_key(list.last()), sort_key(r));
            let p = insertion_point(front, r);
            assert forall|i: int| 0 <= i < p implies in_order(
                #[trigger] sort_key(list[i]),
                sort_key(r),
            ) by {
                assert(in_order(sort_key(front[i]), sort_key(r)));
            }
            assert forall|i: int| p <= i < list.len() implies in_order(
                sort_key(r),
                #[trigger] sort_key(list[i]),
            ) by {
                if i < last {
                    assert(in_order(sort_key(r), sort_key(front[i])));
                }
            }
        }
    }
}

proof fn lemma_insert_keeps_order(list: Seq<RomEntry>, r: RomEntry)
    requires
        is_sorted(list),
    ensures
        is_sorted(list.insert(insertion_point(list, r), r)),
{
    lemma_insertion_point(list, r);
    let p = insertion_point(list, r);
    let out = list.insert(p, r);
    assert forall|i: int, j: int| 0 <= i < j < out.len() implies in_order(
        #[trigger] sort_key(out[i]),
        #[trigger] sort_key(out[j]),
    ) by {
        let a = if i < p {
            i
        } else {
            i - 1
        };
        let b = if j < p {
            j
        } else {
            j - 1
        };
        if i == p {
            assert(in_order(sort_key(r), sort_key(list[b])));
        } else if j == p {
            assert(in_order(sort_key(list[a]), sort_key(r)));
        } else {
            assert(in_order(sort_key(list[a]), sort_key(list[b])));
        }
    }
}

/// The game list of a scan is sorted by name, holds no path twice, and holds
/// nothing but canonical paths of ROM files that were found; every such path is in
/// it.
pub proof fn law_game_list_is_a_sorted_set(found: Seq<(RomEntry, Seq<char>)>)
    ensures
        is_sorted(collected(found)),
        forall|i: int, j: int|
            0 <= i < j < collected(found).len() ==> (#[trigger] collected(found)[i]).path != (
            #[trigger] collected(found)[j]).path,
        forall|p: Seq<char>|
            #[trigger] has_path(collected(found), p) <==> exists|k: int|
                0 <= k < found.len() && (#[trigger] found[k]).1 == p && is_rom_ext(
                    found[k].0.lower_ext,
                ),
    decreases found.len(),
{
    if found.len() > 0 {
        let front = found.drop_last();
        law_game_list_is_a_sorted_set(front);
        let before = collected(front);
        let (entry, canonical) = found.last();
        let last = found.len() - 1;
        let all = collected(found);
        let is_new = is_rom_ext(entry.lower_ext) && !has_path(before, canonical);
        let r = rom_at(canonical);
        if is_new {
            lemma_insertion_point(before, r);
            lemma_insert_keeps_order(before, r);
            let p = insertion_point(before, r);
            assert forall|i: int, j: int| 0 <= i < j < all.len() implies (#[trigger] all[i]).path
                != (#[trigger] all[j]).path by {
                if i == p {
                    assert(all[j] == before[j - 1]);
                } else if j == p {
                    assert(all[i] == before[i]);
                } else {
                    let a = if i < p {
                        i
                    } else {
                        i - 1
                    };
                    let b = if j < p {
                        j
                    } else {
                        j - 1
                    };
                    assert(all[i] == before[a] && all[j] == before[b]);
                }
            }
        }
        assert forall|q: Seq<char>| #[trigger] has_path(all, q) <==> exists|k: int|
            0 <= k < found.len() && (#[trigger] found[k]).1 == q && is_rom_ext(
                found[k].0.lower_ext,
            ) by {
            lemma_listed_after(before, all, r, is_new, q);
            if exists|k: int|
                0 <= k < front.len() && (#[trigger] front[k]).1 == q && is_rom_ext(
                    front[k].0.lower_ext,
                ) {
                let k = choose|k: int|
                    0 <= k < front.len() && (#[trigger] front[k]).1 == q && is_rom_ext(
                        front[k].0.lower_ext,
                    );
                assert(found[k] == front[k]);
            }
            if has_path(all, q) && !has_path(before, q) {
                assert(found[last].1 == q);
            }
            if exists|k: int|
                0 <= k < found.len() && (#[trigger] found[k]).1 == q && is_rom_ext(
                    found[k].0.lower_ext,
                ) {
                let k = choose|k: int|
                    0 <= k < found.len() && (#[trigger] found[k]).1 == q && is_rom_ext(
                        found[k].0.lower_ext,
                    );
                if k < last {
                    assert(front[k] == found[k]);
                    assert(has_path(before, q));
                }
            }
        }
    }
}

/// What one more ROM adds to the listed paths.
proof fn lemma_listed_after(
    before: Seq<RomEntry>,
    all: Seq<RomEntry>,
    r: RomEntry,
    is_new: bool,
    q: Seq<char>,
)
    requires
        is_sorted(before),
        is_new ==> all == before.insert(insertion_point(before, r), r),
        !is_new ==> all == before,
    ensures
        has_path(all, q) == (has_path(before, q) || (is_new && r.path == q)),
{
    if is_new {
        lemma_insertion_point(before, r);
        let p = insertion_point(before, r);
        if has_path(before, q) {
            let i = choose|i: int| 0 <= i < before.len() && (#[trigger] before[i]).path == q;
            if i < p {
                assert(all[i] == before[i]);
            } else {
                assert(all[i + 1] == before[i]);
            }
        }
        assert(all[p] == r);
        if has_path(all, q) {
            let i = choose|i: int| 0 <= i < all.len() && (#[trigger] all[i]).path == q;
            if i < p {
                assert(before[i] == all[i]);
            } else if i > p {
                assert(before[i - 1] == all[i]);
            }
        }
    }
}

/// The order in which settings are stepped through: All, Game Boy, Game Boy Color;
/// off, ANSI, APC; Auto, Best; and the sections from the top of the menu to its list.
pub proof fn law_step_order()
    ensures
        filter_after(RomFilter::All) == RomFilter::GameBoy,
        filter_after(RomFilter::GameBoy) == RomFilter::GameBoyColor,
        filter_after(RomFilter::GameBoyColor) == RomFilter::All,
        sound_after(SoundMode::Off) == SoundMode::Ansi,
        sound_after(SoundMode::Ansi) == SoundMode::Apc,
        sound_after(SoundMode::Apc) == SoundMode::Off,
        screen_after(ScreenSize::Auto) == ScreenSize::Best,
        section_after(MenuSection::RenderMode) == MenuSection::Audio,
        section_after(MenuSection::Audio) == MenuSection::Filter,
        section_after(MenuSection::Filter) == MenuSection::Screen,
        section_after(MenuSection::Screen) == MenuSection::GameList,
        section_after(MenuSection::GameList) == MenuSection::RenderMode,
{
}

/// The files that are games, and those that a filter lets through: with the
/// extension `gb` for Game Boy, `gbc` for Game Boy Color.
pub proof fn law_extensions(ext: Seq<char>)
    ensures
        passes(RomFilter::All, ext),
        passes(RomFilter::GameBoy, ext) <==> ext == "gb"@,
        passes(RomFilter::GameBoyColor, ext) <==> ext == "gbc"@,
        is_rom_ext(ext) <==> passes(RomFilter::GameBoy, ext) || passes(
            RomFilter::GameBoyColor,
            ext,
        ),
        !(passes(RomFilter::GameBoy, ext) && passes(RomFilter::GameBoyColor, ext)),
{
    reveal_strlit("gb");
    reveal_strlit("gbc");
    assert("gb"@.len() == 2 && "gbc"@.len() == 3);
}

/// The codes that preferences are persisted with; an unknown one is the default.
pub proof fn law_codes(s: Seq<char>)
    ensures
        filter_coded(s) == RomFilter::GameBoy <==> s == "gb"@,
        filter_coded(s) == RomFilter::GameBoyColor <==> s == "gbc"@,
        sound_coded(s) == SoundMode::Off <==> s == "off"@,
        sound_coded(s) == SoundMode::Apc <==> s == "apc"@,
        screen_coded(s) == ScreenSize::Best <==> s == "best"@,
        filter_code(RomFilter::All) == "all"@,
        sound_code(SoundMode::Ansi) == "ansi"@,
        screen_code(ScreenSize::Auto) == "auto"@,
{
    reveal_strlit("gb");
    reveal_strlit("gbc");
    reveal_strlit("off");
    reveal_strlit("apc");
    reveal_strlit("best");
    assert("gb"@.len() == 2 && "gbc"@.len() == 3);
    assert("off"@[0] == 'o' && "apc"@[0] == 'a');
}

/// The labels are the codes as they are shown: blanks behind them fill four columns.
pub proof fn law_labels_show_the_codes(f: RomFilter, s: SoundMode, z: ScreenSize)
    ensures
        text::ascii_lowered(filter_label(f)) == text::padded(filter_code(f), 4),
        text::ascii_lowered(sound_label(s)) == text::padded(sound_code(s), 4),
        text::ascii_lowered(screen_label(z)) == text::padded(screen_code(z), 4),
{
    reveal_strlit("All ");
    reveal_strlit("GB  ");
    reveal_strlit("GBC ");
    reveal_strlit("all");
    reveal_strlit("gb");
    reveal_strlit("gbc");
    reveal_strlit("Off ");
    reveal_strlit("ANSI");
    reveal_strlit("APC ");
    reveal_strlit("off");
    reveal_strlit("ansi");
    reveal_strlit("apc");
    reveal_strlit("Auto");
    reveal_strlit("Best");
    reveal_strlit("auto");
    reveal_strlit("best");
    assert(text::ascii_lowered(filter_label(f)) =~= text::padded(filter_code(f), 4));
    assert(text::ascii_lowered(sound_label(s)) =~= text::padded(sound_code(s), 4));
    assert(text::ascii_lowered(screen_label(z)) =~= text::padded(screen_code(z), 4));
}

/// The list fills the terminal below its header: ten rows stand above it and one
/// below. At least four games are shown.
pub proof fn law_list_fills_the_screen(term_rows: int)
    ensures
        term_rows >= 15 ==> 10 + rows_for(term_rows) + 1 == term_rows,
        term_rows <= 15 ==> rows_for(term_rows) == 4,
        GAMES_START_Y == 10,
        GAMES_HEADER_Y + 1 == GAMES_START_Y,
{
}

/// Names are in dictionary order: where they first differ the smaller character comes
/// first, and a name comes before any that goes on from it.
pub proof fn law_names_are_in_dictionary_order(a: Seq<char>, b: Seq<char>, k: int)
    requires
        0 <= k <= a.len(),
        k <= b.len(),
        a.take(k) == b.take(k),
    ensures
        k == a.len() ==> in_order(a, b),
        k == b.len() && k < a.len() ==> !in_order(a, b),
        k < a.len() && k < b.len() && a[k] != b[k] ==> (in_order(a, b) <==> a[k] < b[k]),
    decreases k,
{
    if k > 0 {
        assert(a.take(k)[0] == a[0] && b.take(k)[0] == b[0]);
        assert(a.drop_first().take(k - 1) == a.take(k).drop_first());
        assert(b.drop_first().take(k - 1) == b.take(k).drop_first());
        law_names_are_in_dictionary_order(a.drop_first(), b.drop_first(), k - 1);
    }
}

/// A scan lists a file as it is found under its canonical path: with its name, and
/// both name and extension folded to lower case for searching and filtering.
pub proof fn law_listed_games_are_named_by_their_path(
    found: Seq<(RomEntry, Seq<char>)>,
    i: int,
)
    requires
        0 <= i < collected(found).len(),
    ensures
        ({
            let rom = collected(found)[i];
            &&& rom.name == path::name_of(rom.path)
            &&& rom.lower_name == (match rom.name {
                Some(n) => Some(text::folded(n)),
                None => None,
            })
            &&& rom.lower_ext == (match path::extension_of(rom.path) {
                Some(e) => text::folded(e),
                None => Seq::empty(),
            })
        }),
    decreases found.len(),
{
    let before = collected(found.drop_last());
    let (entry, canonical) = found.last();
    if is_rom_ext(entry.lower_ext) && !has_path(before, canonical) {
        let r = rom_at(canonical);
        let at = insertion_point(before, r);
        lemma_insertion_bounds(before, r);
        assert(collected(found) == before.insert(at, r));
        if i < at {
            law_listed_games_are_named_by_their_path(found.drop_last(), i);
        } else if i > at {
            law_listed_games_are_named_by_their_path(found.drop_last(), i - 1);
        }
    } else {
        law_listed_games_are_named_by_their_path(found.drop_last(), i);
    }
}

proof fn lemma_insertion_bounds(list: Seq<RomEntry>, r: RomEntry)
    ensures
        0 <= insertion_point(list, r) <= list.len(),
    decreases list.len(),
{
    if list.len() > 0 && !in_order(sort_key(list.last()), sort_key(r)) {
        lemma_insertion_bounds(list.drop_last(), r);
    }
}

/// The view of a directory's name that may be missing.
pub open spec fn dir_view(dir: Option<&str>) -> Option<Seq<char>> {
    match dir {
        Some(d) => Some(d@),
        None => None,
    }
}

/// The directory of the games.
pub open spec fn dir_chosen(
    explicit: Option<Seq<char>>,
    explicit_is_dir: bool,
    saved: Option<Seq<char>>,
    working: Seq<char>,
) -> Seq<char> {
    if explicit is Some && explicit_is_dir {
        explicit->0
    } else if saved is Some {
        saved->0
    } else {
        working
    }
}

/// The directory of the games is the one that is named, where it is one; a saved one comes
/// next, and the working directory last.
pub proof fn law_directory_of_the_games(
    named: Seq<char>,
    saved: Seq<char>,
    any: Option<Seq<char>>,
    working: Seq<char>,
)
    ensures
        dir_chosen(Some(named), true, any, working) == named,
        dir_chosen(Some(named), false, Some(saved), working) == saved,
        dir_chosen(None, true, Some(saved), working) == saved,
        dir_chosen(None, false, Some(saved), working) == saved,
        dir_chosen(Some(named), false, None, working) == working,
        dir_chosen(None, true, None, working) == working,
        dir_chosen(None, false, None, working) == working,
{
}

} // verus!
