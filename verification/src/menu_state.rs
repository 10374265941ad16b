//! The menu's state machine.

use crate::color;
use crate::color::ColorSetting;
use crate::config;
use crate::config::Config;
use crate::framebuffer;
use crate::framebuffer::DmgPalette;
use crate::menu;
use crate::menu::{MenuSection, Rom, RomEntry, RomFilter, ScreenSize, SoundMode};
use crate::renderer::RenderMode;
use crate::text;
use vstd::prelude::*;

verus! {

/// Configuration selected from the menu
#[derive(Debug)]
pub struct MenuConfig {
    pub rom_path: String,
    pub render_mode: RenderMode,
    pub sound: SoundMode,
    pub color: ColorSetting,
    pub dmg_palette: DmgPalette,
}

/// Menu state
#[derive(Debug)]
pub struct MenuState {
    // Settings
    pub render_mode: RenderMode,
    pub sound: SoundMode,
    pub filter: RomFilter,
    pub screen: ScreenSize,
    pub color: ColorSetting,
    pub dmg_palette: DmgPalette,
    /// Available ROMs (master list) and the filtered view into it.
    pub rom_files: Vec<Rom>,
    /// indices into rom_files passing `filter`
    pub filtered: Vec<usize>,
    /// index into `filtered`
    pub selected_rom_index: usize,
    // UI state
    pub current_section: MenuSection,
    /// Which settings row to return to when Tab jumps back from the game list,
    /// so focus is preserved instead of always snapping to the top setting.
    pub last_settings: MenuSection,
    pub scroll_offset: usize,
    /// How many ROM rows currently fit, derived from the live terminal height.
    pub visible_rows: usize,
    pub typeahead: Vec<char>,
}

/// What a menu state says.
#[verifier::ext_equal]
pub struct Menu {
    pub render_mode: RenderMode,
    pub sound: SoundMode,
    pub filter: RomFilter,
    pub screen: ScreenSize,
    pub color: ColorSetting,
    pub dmg_palette: DmgPalette,
    pub roms: Seq<RomEntry>,
    pub filtered: Seq<usize>,
    pub selected: int,
    pub section: MenuSection,
    pub last_settings: MenuSection,
    pub scroll: int,
    pub visible: int,
    pub typeahead: Seq<char>,
}

impl View for MenuState {
    type V = Menu;

    open spec fn view(&self) -> Menu {
        Menu {
            render_mode: self.render_mode,
            sound: self.sound,
            filter: self.filter,
            screen: self.screen,
            color: self.color,
            dmg_palette: self.dmg_palette,
            roms: menu::entries(self.rom_files@),
            filtered: self.filtered@,
            selected: self.selected_rom_index as int,
            section: self.current_section,
            last_settings: self.last_settings,
            scroll: self.scroll_offset as int,
            visible: self.visible_rows as int,
            typeahead: self.typeahead@,
        }
    }
}

/// The indices of the first `n` ROMs that pass the filter.
pub open spec fn passing(roms: Seq<RomEntry>, f: RomFilter, n: nat) -> Seq<usize>
    decreases n,
{
    if n == 0 {
        Seq::empty()
    } else {
        let before = passing(roms, f, (n - 1) as nat);
        if menu::passes(f, roms[n - 1].lower_ext) {
            before.push((n - 1) as usize)
        } else {
            before
        }
    }
}

/// The filtered view recomputed, the cursor at the top.
pub open spec fn refiltered(m: Menu) -> Menu {
    Menu { filtered: passing(m.roms, m.filter, m.roms.len()), selected: 0, scroll: 0, ..m }
}

pub open spec fn window(m: Menu) -> int {
    if m.visible < 1 {
        1
    } else {
        m.visible
    }
}

/// The window moved just so far that it holds the selected row.
pub open spec fn made_visible(m: Menu) -> Menu {
    if m.selected < m.scroll {
        Menu { scroll: m.selected, ..m }
    } else if m.selected >= m.scroll + window(m) {
        Menu { scroll: m.selected + 1 - window(m), ..m }
    } else {
        m
    }
}

pub open spec fn min(a: int, b: int) -> int {
    if a < b {
        a
    } else {
        b
    }
}

pub open spec fn max(a: int, b: int) -> int {
    if a < b {
        b
    } else {
        a
    }
}

/// Where a page up or down in a list of `n` goes: the new window offset and
/// cursor. The cursor keeps its row in the window; on the first or last page it
/// goes to the very first or last game.
pub open spec fn page_target(n: int, win: int, scroll: int, selected: int, up: bool) -> (int, int) {
    let rel = max(selected - scroll, 0);
    if up {
        let to = max(scroll - win, 0);
        if to == scroll {
            (scroll, 0)
        } else {
            (to, to + rel)
        }
    } else {
        let to = min(scroll + win, max(n - win, 0));
        if to == scroll {
            (scroll, n - 1)
        } else {
            (to, min(to + rel, n - 1))
        }
    }
}

/// One page up or down.
pub open spec fn paged(m: Menu, up: bool) -> Menu {
    if m.filtered.len() == 0 {
        m
    } else {
        let (scroll, selected) = page_target(
            m.filtered.len() as int,
            window(m),
            m.scroll,
            m.selected,
            up,
        );
        made_visible(Menu { typeahead: Seq::empty(), scroll, selected, ..m })
    }
}

/// Does the ROM at a position of the filtered list begin with `needle`?
pub open spec fn begins_at(m: Menu, pos: int, needle: Seq<char>) -> bool {
    match m.roms[m.filtered[pos] as int].lower_name {
        Some(n) => text::begins_with(n, needle),
        None => false,
    }
}

/// Is the ROM at a position of the filtered list named `name`?
pub open spec fn named_at(m: Menu, pos: int, name: Seq<char>) -> bool {
    m.roms[m.filtered[pos] as int].name == Some(name)
}

/// The first position of the filtered list, from `from` on, that begins with
/// `needle`; the length when none does.
pub open spec fn first_beginning(m: Menu, needle: Seq<char>, from: int) -> int
    decreases m.filtered.len() - from,
{
    if from >= m.filtered.len() || begins_at(m, from, needle) {
        from
    } else {
        first_beginning(m, needle, from + 1)
    }
}

/// The first position of the filtered list, from `from` on, that is named `name`;
/// the length when none is.
pub open spec fn first_named(m: Menu, name: Seq<char>, from: int) -> int
    decreases m.filtered.len() - from,
{
    if from >= m.filtered.len() || named_at(m, from, name) {
        from
    } else {
        first_named(m, name, from + 1)
    }
}

/// The cursor on a position, if it is one of the list.
pub open spec fn selected_at(m: Menu, pos: int) -> Menu {
    if pos < m.filtered.len() {
        made_visible(Menu { selected: pos, ..m })
    } else {
        m
    }
}

/// The cursor on the first game that begins with the (lowercase) needle.
pub open spec fn jumped(m: Menu, needle: Seq<char>) -> Menu {
    selected_at(m, first_beginning(m, needle, 0))
}

/// The type-ahead followed, when there is one.
pub open spec fn typed_ahead(m: Menu) -> Menu {
    if m.typeahead.len() == 0 {
        m
    } else {
        jumped(m, text::folded(m.typeahead))
    }
}

/// The index of the ROM under the cursor.
pub open spec fn under_cursor(m: Menu) -> Option<usize> {
    if m.selected < m.filtered.len() {
        Some(m.filtered[m.selected])
    } else {
        None
    }
}

/// Positions are in range.
pub open spec fn is_valid(m: Menu) -> bool {
    &&& m.roms.len() + 0x2_0000 <= usize::MAX
    &&& m.filtered.len() <= m.roms.len()
    &&& forall|k: int| 0 <= k < m.filtered.len() ==> (#[trigger] m.filtered[k]) < m.roms.len()
    &&& 0 <= m.scroll <= m.selected
    &&& m.selected < m.filtered.len() || m.selected == 0
    &&& 1 <= m.visible <= 0xfff4
}

/// A menu as it opens: the saved choices, the cursor in the game list on the game
/// last launched.
pub open spec fn opened(
    saved: config::Prefs,
    roms: Seq<RomEntry>,
    color: ColorSetting,
    dmg_palette: DmgPalette,
) -> Menu {
    let m = refiltered(
        Menu {
            // New users default to Block (the richer renderer).
            render_mode: if saved.render_block == Some(false) {
                RenderMode::Ascii
            } else {
                RenderMode::Block
            },
            sound: match saved.sound {
                Some(s) => menu::sound_coded(s),
                None => SoundMode::Ansi,
            },
            filter: match saved.filter {
                Some(s) => menu::filter_coded(s),
                None => RomFilter::All,
            },
            screen: match saved.screen {
                Some(s) => menu::screen_coded(s),
                None => ScreenSize::Auto,
            },
            color,
            dmg_palette,
            roms,
            filtered: Seq::empty(),
            selected: 0,
            section: MenuSection::GameList,
            last_settings: MenuSection::RenderMode,
            scroll: 0,
            visible: menu::VISIBLE_ROWS as int,
            typeahead: Seq::empty(),
        },
    );
    match saved.last_game {
        Some(name) => selected_at(m, first_named(m, name, 0)),
        None => m,
    }
}

/// A saved color depth, or the default when none is saved or it means nothing.
pub open spec fn color_choice(saved: Option<Seq<char>>, otherwise: ColorSetting) -> ColorSetting {
    match saved {
        Some(s) => match color::setting_named(text::folded(text::trimmed(s))) {
            Some(c) => c,
            None => otherwise,
        },
        None => otherwise,
    }
}

/// A saved palette, or the default when none is saved or it means nothing.
pub open spec fn palette_choice(saved: Option<Seq<char>>, otherwise: DmgPalette) -> DmgPalette {
    match saved {
        Some(s) => match framebuffer::palette_named(text::folded(text::trimmed(s))) {
            Some(p) => p,
            None => otherwise,
        },
        None => otherwise,
    }
}

/// The preferences to persist: the menu's own settings, everything else as it was
/// saved.
pub open spec fn merged(m: Menu, saved: config::Prefs) -> config::Prefs {
    config::Prefs {
        render_block: Some(m.render_mode == RenderMode::Block),
        sound: Some(menu::sound_code(m.sound)),
        filter: Some(menu::filter_code(m.filter)),
        screen: Some(menu::screen_code(m.screen)),
        ..saved
    }
}

/// The caller's choice of color depth: a saved one overrides the default.
pub fn saved_color(saved: &Config, otherwise: ColorSetting) -> (r: ColorSetting)
    ensures
        r == color_choice(saved@.color, otherwise),
{
    match &saved.color {
        Some(s) => match ColorSetting::parse(s.as_str()) {
            Some(c) => c,
            None => otherwise,
        },
        None => otherwise,
    }
}

/// The caller's choice of palette: a saved one overrides the default.
pub fn saved_palette(saved: &Config, otherwise: DmgPalette) -> (r: DmgPalette)
    ensures
        r == palette_choice(saved@.dmg_palette, otherwise),
{
    match &saved.dmg_palette {
        Some(s) => match DmgPalette::parse(s.as_str()) {
            Some(p) => p,
            None => otherwise,
        },
        None => otherwise,
    }
}

/// Remember the game just launched, preserving the other saved prefs, so the list
/// reopens on it next time the menu is shown.
pub fn with_last_game(saved: Config, name: &str) -> (r: Config)
    ensures
        r@ == (config::Prefs { last_game: Some(name@), ..saved@ }),
{
    let mut cfg = saved;
    cfg.last_game = Some(name.to_owned());
    cfg
}

proof fn lemma_passing(roms: Seq<RomEntry>, f: RomFilter, n: nat)
    requires
        n <= roms.len(),
        roms.len() <= usize::MAX,
    ensures
        passing(roms, f, n).len() <= n,
        forall|k: int|
            0 <= k < passing(roms, f, n).len() ==> (#[trigger] passing(roms, f, n)[k]) < n,
    decreases n,
{
    if n > 0 {
        lemma_passing(roms, f, (n - 1) as nat);
    }
}

proof fn lemma_refiltered_is_valid(m: Menu)
    requires
        m.roms.len() + 0x2_0000 <= usize::MAX,
        1 <= m.visible <= 0xfff4,
    ensures
        is_valid(refiltered(m)),
{
    lemma_passing(m.roms, m.filter, m.roms.len());
}

proof fn lemma_first_beginning(m: Menu, needle: Seq<char>, from: int)
    requires
        0 <= from <= m.filtered.len(),
    ensures
        from <= first_beginning(m, needle, from) <= m.filtered.len(),
    decreases m.filtered.len() - from,
{
    if from < m.filtered.len() && !begins_at(m, from, needle) {
        lemma_first_beginning(m, needle, from + 1);
    }
}

proof fn lemma_first_named(m: Menu, name: Seq<char>, from: int)
    requires
        0 <= from <= m.filtered.len(),
    ensures
        from <= first_named(m, name, from) <= m.filtered.len(),
    decreases m.filtered.len() - from,
{
    if from < m.filtered.len() && !named_at(m, from, name) {
        lemma_first_named(m, name, from + 1);
    }
}

/// Where a page up or down goes: the new window offset and cursor.
fn turn_page(n: usize, win: usize, scroll: usize, selected: usize, up: bool) -> (r: (usize, usize))
    requires
        1 <= win,
        1 <= n,
        selected + 2 * win <= usize::MAX,
        scroll + 2 * win <= usize::MAX,
        n + win <= usize::MAX,
    ensures
        (r.0 as int, r.1 as int) == page_target(
            n as int,
            win as int,
            scroll as int,
            selected as int,
            up,
        ),
        r.0 + win <= usize::MAX,
        r.1 < usize::MAX,
{
    let rel: usize = if selected < scroll {
        0
    } else {
        selected - scroll
    };
    if up {
        let to: usize = if scroll < win {
            0
        } else {
            scroll - win
        };
        if to == scroll {
            (scroll, 0)  // already at the top page
        } else {
            (to, to + rel)
        }
    } else {
        // top offset that still fills the window
        let max_off: usize = if n < win {
            0
        } else {
            n - win
        };
        let to: usize = if scroll + win < max_off {
            scroll + win
        } else {
            max_off
        };
        if to == scroll {
            (scroll, n - 1)  // already at the bottom page
        } else if to + rel < n - 1 {
            (to, to + rel)
        } else {
            (to, n - 1)
        }
    }
}

impl MenuState {
    /// Build the state from the saved preferences and the ROMs that a scan found.
    pub fn new(
        saved: &Config,
        rom_files: Vec<Rom>,
        color: ColorSetting,
        dmg_palette: DmgPalette,
    ) -> (r: Self)
        requires
            rom_files@.len() + 0x2_0000 <= usize::MAX,
        ensures
            r@ == opened(saved@, menu::entries(rom_files@), color, dmg_palette),
            is_valid(r@),
    {
        let render_mode = match saved.render_block {
            Some(false) => RenderMode::Ascii,
            _ => RenderMode::Block,
        };
        let sound = match &saved.sound {
            Some(s) => SoundMode::from_code(s.as_str()),
            None => SoundMode::Ansi,
        };
        let filter = match &saved.filter {
            Some(s) => RomFilter::from_code(s.as_str()),
            None => RomFilter::All,
        };
        let screen = match &saved.screen {
            Some(s) => ScreenSize::from_code(s.as_str()),
            None => ScreenSize::Auto,
        };
        let mut state = MenuState {
            render_mode,
            sound,
            filter,
            screen,
            color,
            dmg_palette,
            rom_files,
            filtered: Vec::new(),
            selected_rom_index: 0,
            // Open focused on the game list (this state is rebuilt on every menu
            // entry, so it also lands here after a game exits), not the settings.
            current_section: MenuSection::GameList,
            last_settings: MenuSection::RenderMode,
            scroll_offset: 0,
            visible_rows: menu::VISIBLE_ROWS,
            typeahead: Vec::new(),
        };
        state.rebuild_filter();
        // Reopen on the game the user last launched, if it's still in the list.
        if let Some(name) = &saved.last_game {
            state.select_by_filename(name.as_str());
        }
        state
    }

    /// Recompute the filtered view and reset the cursor to the top.
    pub fn rebuild_filter(&mut self)
        ensures
            final(self)@ == refiltered(old(self)@),
            old(self).rom_files@.len() + 0x2_0000 <= usize::MAX && 1 <= old(self).visible_rows
                <= 0xfff4 ==> is_valid(final(self)@),
    {
        let ghost roms = self@.roms;
        let mut filtered: Vec<usize> = Vec::new();
        let mut i: usize = 0;
        while i < self.rom_files.len()
            invariant
                *self == *old(self),
                roms == self@.roms,
                i <= self.rom_files.len(),
                filtered@ == passing(roms, self.filter, i as nat),
            decreases self.rom_files.len() - i,
        {
            assert(roms[i as int] == self.rom_files@[i as int]@);
            if self.filter.matches(self.rom_files[i].lower_ext.as_str()) {
                filtered.push(i);
            }
            i += 1;
        }
        self.filtered = filtered;
        self.selected_rom_index = 0;
        self.scroll_offset = 0;
        proof {
            assert(roms.len() == self.rom_files.len());
            if roms.len() + 0x2_0000 <= usize::MAX && 1 <= old(self).visible_rows <= 0xfff4 {
                lemma_refiltered_is_valid(old(self)@);
            }
        }
    }

    /// Take a new scan of the ROM directory.
    pub fn rescanned(&mut self, rom_files: Vec<Rom>)
        requires
            rom_files@.len() + 0x2_0000 <= usize::MAX,
            is_valid(old(self)@),
        ensures
            final(self)@ == refiltered(
                (Menu { roms: menu::entries(rom_files@), ..old(self)@ }),
            ),
            is_valid(final(self)@),
    {
        self.rom_files = rom_files;
        self.rebuild_filter();
    }

    /// The index of the ROM currently under the cursor, if any.
    pub fn selected_rom(&self) -> (r: Option<usize>)
        ensures
            r == under_cursor(self@),
    {
        if self.selected_rom_index < self.filtered.len() {
            Some(self.filtered[self.selected_rom_index])
        } else {
            None
        }
    }

    /// Keep the selected row inside the visible window.
    pub fn ensure_visible(&mut self)
        requires
            old(self).scroll_offset + window(old(self)@) <= usize::MAX,
            old(self).selected_rom_index < usize::MAX,
        ensures
            final(self)@ == made_visible(old(self)@),
    {
        let win: usize = if self.visible_rows < 1 {
            1
        } else {
            self.visible_rows
        };
        if self.selected_rom_index < self.scroll_offset {
            self.scroll_offset = self.selected_rom_index;
        } else if self.selected_rom_index >= self.scroll_offset + win {
            self.scroll_offset = self.selected_rom_index + 1 - win;
        }
    }

    /// Scroll the game list one visible page, keeping the cursor at the SAME row
    /// within the viewport (so paging feels like turning a page, not jumping the
    /// selection to the window edge). When already on the first/last page, the
    /// cursor moves to the very first/last game instead.
    pub fn page(&mut self, up: bool)
        requires
            old(self).selected_rom_index + 2 * window(old(self)@) <= usize::MAX,
            old(self).scroll_offset + 2 * window(old(self)@) <= usize::MAX,
            old(self).filtered@.len() + window(old(self)@) <= usize::MAX,
        ensures
            final(self)@ == paged(old(self)@, up),
    {
        if self.filtered.len() == 0 {
            return;
        }
        self.typeahead.clear();
        let win: usize = if self.visible_rows < 1 {
            1
        } else {
            self.visible_rows
        };
        let (scroll, selected) = turn_page(
            self.filtered.len(),
            win,
            self.scroll_offset,
            self.selected_rom_index,
            up,
        );
        self.scroll_offset = scroll;
        self.selected_rom_index = selected;
        self.ensure_visible();
    }

    /// Jump to the first ROM in the filtered list whose name starts with the
    /// needle (both in lower case). No-op if nothing matches.
    pub fn jump_to(&mut self, needle: &str)
        requires
            is_valid(old(self)@),
        ensures
            final(self)@ == jumped(old(self)@, needle@),
            is_valid(final(self)@),
    {
        let ghost m = self@;
        let mut pos: usize = 0;
        while pos < self.filtered.len()
            invariant
                *self == *old(self),
                m == self@,
                is_valid(m),
                pos <= self.filtered.len(),
                first_beginning(m, needle@, 0) == first_beginning(m, needle@, pos as int),
            decreases self.filtered.len() - pos,
        {
            let i: usize = self.filtered[pos];
            assert(m.filtered[pos as int] < m.roms.len());
            assert(m.roms[i as int] == self.rom_files@[i as int]@);
            let hit = match &self.rom_files[i].lower_name {
                Some(n) => {
                    let v = text::chars_of(n.as_str());
                    text::after_prefix(v.as_slice(), needle).is_some()
                },
                None => false,
            };
            if hit {
                self.selected_rom_index = pos;
                self.ensure_visible();
                return;
            }
            pos += 1;
        }
    }

    /// Jump to the first ROM in the filtered list whose name starts with the
    /// current type-ahead buffer (case-insensitive). No-op if nothing matches.
    pub fn typeahead_jump(&mut self)
        requires
            is_valid(old(self)@),
        ensures
            final(self)@ == typed_ahead(old(self)@),
            is_valid(final(self)@),
    {
        if self.typeahead.len() == 0 {
            return;
        }
        let typed = text::string_of(self.typeahead.as_slice());
        let needle = text::to_lowercase(typed.as_str());
        self.jump_to(needle.as_str());
    }

    /// Move the cursor to the ROM whose file name matches `name` exactly (the
    /// persisted last game). No-op if it's gone or filtered out of the list.
    pub fn select_by_filename(&mut self, name: &str)
        requires
            is_valid(old(self)@),
        ensures
            final(self)@ == selected_at(old(self)@, first_named(old(self)@, name@, 0)),
            is_valid(final(self)@),
    {
        let ghost m = self@;
        let mut pos: usize = 0;
        while pos < self.filtered.len()
            invariant
                *self == *old(self),
                m == self@,
                is_valid(m),
                pos <= self.filtered.len(),
                first_named(m, name@, 0) == first_named(m, name@, pos as int),
            decreases self.filtered.len() - pos,
        {
            let i: usize = self.filtered[pos];
            assert(m.filtered[pos as int] < m.roms.len());
            assert(m.roms[i as int] == self.rom_files@[i as int]@);
            let hit = match &self.rom_files[i].name {
                Some(n) => text::same_str(n.as_str(), name),
                None => false,
            };
            if hit {
                self.selected_rom_index = pos;
                self.ensure_visible();
                return;
            }
            pos += 1;
        }
    }

    /// The preferences to persist for this user: render/audio/filter/screen as
    /// chosen here, whatever else was saved preserved.
    pub fn prefs(&self, saved: Config) -> (r: Config)
        ensures
            r@ == merged(self@, saved@),
    {
        let mut cfg = saved;
        cfg.render_block = Some(
            match self.render_mode {
                RenderMode::Block => true,
                RenderMode::Ascii => false,
            },
        );
        cfg.sound = Some(self.sound.code().to_owned());
        cfg.filter = Some(self.filter.code().to_owned());
        cfg.screen = Some(self.screen.code().to_owned());
        cfg
    }
}

// ---------------------------------------------------------------------------
// Laws
// ---------------------------------------------------------------------------

/// The cursor stands in the window.
pub open spec fn is_shown(m: Menu) -> bool {
    m.scroll <= m.selected < m.scroll + window(m)
}

/// However the cursor moved, making it visible moves the window around it, and
/// leaves a window alone that holds it already.
pub proof fn law_cursor_is_made_visible(m: Menu)
    ensures
        is_shown(made_visible(m)),
        is_shown(m) ==> made_visible(m) == m,
        made_visible(m).selected == m.selected,
{
}

/// Paging feels like turning a page: where there is a full page below, page down
/// keeps the cursor's row in the window, and page up brings everything back.
pub proof fn law_page_down_then_up(m: Menu)
    requires
        is_valid(m),
        is_shown(m),
        m.filtered.len() > 0,
        m.scroll + 2 * window(m) <= m.filtered.len(),
    ensures
        paged(m, false).selected - paged(m, false).scroll == m.selected - m.scroll,
        paged(m, false).scroll == m.scroll + window(m),
        paged(paged(m, false), true) == (Menu { typeahead: Seq::empty(), ..m }),
{
}

/// On the last page, page down goes to the very last game; on the first page, page
/// up goes to the first.
pub proof fn law_pages_end_at_the_ends(m: Menu)
    requires
        is_valid(m),
        m.filtered.len() > 0,
    ensures
        m.scroll == max(m.filtered.len() - window(m), 0) ==> paged(m, false).selected
            == m.filtered.len() - 1,
        m.scroll == 0 ==> paged(m, true).selected == 0,
        is_shown(paged(m, true)),
        is_shown(paged(m, false)),
{
}

/// The menu's settings survive the session: a menu opened on the preferences that
/// a menu persisted has the same settings, and what the menu does not manage is
/// kept.
pub proof fn law_menu_reopens_as_left(
    m: Menu,
    saved: config::Prefs,
    roms: Seq<RomEntry>,
    color: ColorSetting,
    dmg_palette: DmgPalette,
)
    ensures
        ({
            let again = opened(merged(m, saved), roms, color, dmg_palette);
            &&& again.render_mode == m.render_mode
            &&& again.sound == m.sound
            &&& again.filter == m.filter
            &&& again.screen == m.screen
        }),
        merged(m, saved).roms_dir == saved.roms_dir,
        merged(m, saved).last_game == saved.last_game,
        merged(m, saved).color == saved.color,
        merged(m, saved).dmg_palette == saved.dmg_palette,
{
    menu::law_codes_read_back(m.filter, m.sound, m.screen);
}

/// The list reopens on the game last launched, when it is still listed under that
/// name.
pub proof fn law_list_reopens_on_last_game(
    saved: config::Prefs,
    roms: Seq<RomEntry>,
    color: ColorSetting,
    dmg_palette: DmgPalette,
    pos: int,
)
    requires
        saved.last_game is Some,
        ({
            let m = opened(config::Prefs { last_game: None, ..saved }, roms, color, dmg_palette);
            0 <= pos < m.filtered.len() && named_at(m, pos, saved.last_game->0)
        }),
    ensures
        ({
            let m = opened(saved, roms, color, dmg_palette);
            &&& m.selected < m.filtered.len()
            &&& named_at(m, m.selected, saved.last_game->0)
            &&& is_shown(m)
        }),
{
    let m = opened(config::Prefs { last_game: None, ..saved }, roms, color, dmg_palette);
    lemma_first_named(m, saved.last_game->0, 0);
    lemma_first_named_hits(m, saved.last_game->0, 0, pos);
}

proof fn lemma_first_named_hits(m: Menu, name: Seq<char>, from: int, pos: int)
    requires
        0 <= from <= pos < m.filtered.len(),
        named_at(m, pos, name),
    ensures
        first_named(m, name, from) <= pos,
        named_at(m, first_named(m, name, from), name),
    decreases m.filtered.len() - from,
{
    if !named_at(m, from, name) {
        lemma_first_named_hits(m, name, from + 1, pos);
    }
}

proof fn lemma_first_beginning_hits(m: Menu, needle: Seq<char>, from: int, pos: int)
    requires
        0 <= from <= pos < m.filtered.len(),
        begins_at(m, pos, needle),
    ensures
        from <= first_beginning(m, needle, from) <= pos,
        begins_at(m, first_beginning(m, needle, from), needle),
    decreases m.filtered.len() - from,
{
    if !begins_at(m, from, needle) {
        lemma_first_beginning_hits(m, needle, from + 1, pos);
    }
}

/// Type-ahead finds a game when there is one: the cursor goes to the first listed
/// game that begins with what was typed, and stays in view; when there is none,
/// nothing moves.
pub proof fn law_typeahead_finds_the_first_match(m: Menu, needle: Seq<char>)
    ensures
        forall|pos: int|
            0 <= pos < m.filtered.len() && #[trigger] begins_at(m, pos, needle) ==> {
                &&& jumped(m, needle).selected <= pos
                &&& begins_at(m, jumped(m, needle).selected, needle)
                &&& is_shown(jumped(m, needle))
            },
        (forall|pos: int| 0 <= pos < m.filtered.len() ==> !(#[trigger] begins_at(m, pos, needle)))
            ==> jumped(m, needle) == m,
{
    lemma_first_beginning(m, needle, 0);
    assert forall|pos: int|
        0 <= pos < m.filtered.len() && #[trigger] begins_at(m, pos, needle) implies {
        &&& jumped(m, needle).selected <= pos
        &&& begins_at(m, jumped(m, needle).selected, needle)
        &&& is_shown(jumped(m, needle))
    } by {
        lemma_first_beginning_hits(m, needle, 0, pos);
    }
    if forall|pos: int| 0 <= pos < m.filtered.len() ==> !(#[trigger] begins_at(m, pos, needle)) {
        lemma_no_beginning(m, needle, 0);
    }
}

proof fn lemma_no_beginning(m: Menu, needle: Seq<char>, from: int)
    requires
        0 <= from <= m.filtered.len(),
        forall|pos: int| 0 <= pos < m.filtered.len() ==> !(#[trigger] begins_at(m, pos, needle)),
    ensures
        first_beginning(m, needle, from) == m.filtered.len(),
    decreases m.filtered.len() - from,
{
    if from < m.filtered.len() {
        assert(!begins_at(m, from, needle));
        lemma_no_beginning(m, needle, from + 1);
    }
}

/// The filtered view holds exactly the ROMs that pass, in the order of the list.
pub proof fn law_filter_is_exact(roms: Seq<RomEntry>, f: RomFilter, n: nat)
    requires
        n <= roms.len() <= usize::MAX,
    ensures
        forall|i: int|
            0 <= i < n ==> (passing(roms, f, n).contains(i as usize) <==> menu::passes(
                f,
                (#[trigger] roms[i]).lower_ext,
            )),
        forall|a: int, b: int|
            0 <= a < b < passing(roms, f, n).len() ==> (#[trigger] passing(roms, f, n)[a]) < (
            #[trigger] passing(roms, f, n)[b]),
    decreases n,
{
    lemma_passing(roms, f, n);
    if n > 0 {
        let m = (n - 1) as nat;
        lemma_passing(roms, f, m);
        law_filter_is_exact(roms, f, m);
        let before = passing(roms, f, m);
        let all = passing(roms, f, n);
        assert forall|i: int| 0 <= i < n implies (all.contains(i as usize) <==> menu::passes(
            f,
            (#[trigger] roms[i]).lower_ext,
        )) by {
            if i < m {
                if before.contains(i as usize) {
                    let k = choose|k: int| 0 <= k < before.len() && before[k] == i as usize;
                    assert(all[k] == before[k]);
                }
                if all.contains(i as usize) {
                    let k = choose|k: int| 0 <= k < all.len() && all[k] == i as usize;
                    if k < before.len() {
                        assert(before[k] == all[k]);
                    }
                }
            } else {
                if menu::passes(f, roms[i].lower_ext) {
                    assert(all[before.len() as int] == i as usize);
                } else if all.contains(i as usize) {
                    let k = choose|k: int| 0 <= k < before.len() && before[k] == i as usize;
                    assert(before[k] < m);
                }
            }
        }
    }
}

/// The window moves no further than it must: up to have the cursor in its first row,
/// down to have it in its last.
pub proof fn law_window_moves_as_little_as_it_must(m: Menu)
    requires
        m.visible >= 1,
    ensures
        m.selected < m.scroll ==> made_visible(m).scroll == m.selected,
        m.selected >= m.scroll + m.visible ==> made_visible(m).scroll + m.visible - 1
            == m.selected,
        made_visible(m) == (Menu { scroll: made_visible(m).scroll, ..m }),
{
}

/// A page never goes back the wrong way, and always gets on: page down moves the
/// cursor toward the end until it stands there, page up toward the beginning. The
/// window shows no row beyond the last game, and what was typed is forgotten.
pub proof fn law_pages_move_the_cursor(m: Menu)
    requires
        is_valid(m),
        is_shown(m),
        m.filtered.len() > 0,
        m.scroll + m.visible <= m.filtered.len() || m.scroll == 0,
    ensures
        m.selected + 1 < m.filtered.len() ==> m.selected < paged(m, false).selected
            < m.filtered.len(),
        m.selected + 1 == m.filtered.len() ==> paged(m, false).selected == m.selected,
        m.selected > 0 ==> 0 <= paged(m, true).selected < m.selected,
        m.selected == 0 ==> paged(m, true).selected == 0,
        paged(m, false).selected <= m.selected + m.visible || m.scroll + 2 * m.visible
            > m.filtered.len(),
        paged(m, true).selected >= m.selected - m.visible || m.scroll < m.visible,
        paged(m, false).scroll + m.visible <= m.filtered.len() || paged(m, false).scroll == 0,
        paged(m, true).scroll + m.visible <= m.filtered.len() || paged(m, true).scroll == 0,
        paged(m, false).typeahead.len() == 0,
        paged(m, true).typeahead.len() == 0,
{
}

/// A filter starts its list at the top, and changes nothing else.
pub proof fn law_filter_starts_at_the_top(m: Menu)
    requires
        m.roms.len() <= usize::MAX,
    ensures
        refiltered(m) == (Menu {
            filtered: refiltered(m).filtered,
            selected: 0,
            scroll: 0,
            ..m
        }),
        forall|i: int|
            0 <= i < m.roms.len() ==> (refiltered(m).filtered.contains(i as usize) <==> match m.filter {
                RomFilter::All => true,
                RomFilter::GameBoy => (#[trigger] m.roms[i]).lower_ext == "gb"@,
                RomFilter::GameBoyColor => m.roms[i].lower_ext == "gbc"@,
            }),
{
    law_filter_is_exact(m.roms, m.filter, m.roms.len());
}

/// What a caller finds on the first visit: block graphics, ANSI music, all games, the
/// terminal as it is, and the cursor on the first game.
pub proof fn law_first_visit(
    roms: Seq<RomEntry>,
    color: ColorSetting,
    dmg_palette: DmgPalette,
    saved: config::Prefs,
)
    requires
        saved.render_block is None,
        saved.sound is None,
        saved.filter is None,
        saved.screen is None,
        saved.last_game is None,
    ensures
        ({
            let m = opened(saved, roms, color, dmg_palette);
            &&& m.render_mode == RenderMode::Block
            &&& m.sound == SoundMode::Ansi
            &&& m.filter == RomFilter::All
            &&& m.screen == ScreenSize::Auto
            &&& m.section == MenuSection::GameList
            &&& m.selected == 0 && m.scroll == 0 && m.typeahead.len() == 0
            &&& m.color == color && m.dmg_palette == dmg_palette && m.roms == roms
        }),
{
}

/// Saved choices are taken up: `render` is ASCII where it is saved so and else blocks,
/// and the other settings are those of their codes.
pub proof fn law_saved_choices_are_taken_up(
    roms: Seq<RomEntry>,
    color: ColorSetting,
    dmg_palette: DmgPalette,
    saved: config::Prefs,
)
    ensures
        ({
            let m = opened(saved, roms, color, dmg_palette);
            &&& m.render_mode == RenderMode::Ascii <==> saved.render_block == Some(false)
            &&& saved.sound matches Some(s) ==> m.sound == menu::sound_coded(s)
            &&& saved.filter matches Some(s) ==> m.filter == menu::filter_coded(s)
            &&& saved.screen matches Some(s) ==> m.screen == menu::screen_coded(s)
        }),
{
}

/// A depth or palette that was not saved, or not under a word that names one, is the
/// one given.
pub proof fn law_unsaved_colors_are_as_given(c: ColorSetting, p: DmgPalette, s: Seq<char>)
    ensures
        color_choice(None, c) == c,
        palette_choice(None, p) == p,
        color::setting_named(text::folded(text::trimmed(s))) is None ==> color_choice(Some(s), c)
            == c,
        color::setting_named(text::folded(text::trimmed(s))) matches Some(named) ==> color_choice(
            Some(s),
            c,
        ) == named,
        framebuffer::palette_named(text::folded(text::trimmed(s))) is None ==> palette_choice(
            Some(s),
            p,
        ) == p,
        framebuffer::palette_named(text::folded(text::trimmed(s))) matches Some(named)
            ==> palette_choice(Some(s), p) == named,
{
}

/// The ROM under the cursor is the one that the filtered list names there.
pub proof fn law_cursor_is_on_its_game(m: Menu)
    ensures
        0 <= m.selected < m.filtered.len() ==> under_cursor(m) == Some(m.filtered[m.selected]),
        m.selected >= m.filtered.len() ==> under_cursor(m) is None,
{
}

/// The preferences that are persisted name the settings by their codes.
pub proof fn law_persisted_settings(m: Menu, saved: config::Prefs)
    ensures
        merged(m, saved).render_block == Some(m.render_mode == RenderMode::Block),
        merged(m, saved).sound matches Some(s) && menu::sound_coded(s) == m.sound,
        merged(m, saved).filter matches Some(s) && menu::filter_coded(s) == m.filter,
        merged(m, saved).screen matches Some(s) && menu::screen_coded(s) == m.screen,
{
    menu::law_codes_read_back(m.filter, m.sound, m.screen);
}

} // verus!
