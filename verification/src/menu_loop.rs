//! What the caller's keys do to the menu.
//!
//! `MenuLoop::on_event` takes what happened (a key, a size report, an idle tick)
//! and says what is to be done: wait on, probe the terminal, redraw, resize the
//! terminal, persist the preferences, rescan, launch a game or leave.

use crate::keys::{Key, MenuEvent};
use crate::menu;
use crate::menu::{MenuSection, ScreenSize, BEST_COLS, BEST_ROWS, TYPEAHEAD_RESET};
use crate::menu_state;
use crate::menu_state::{Menu, MenuConfig, MenuState};
use crate::renderer::RenderMode;
use crate::session;
use vstd::prelude::*;

verus! {

/// How the loop goes on.
#[derive(Clone, Copy, PartialEq, Eq, Debug, Structural)]
pub enum Next {
    /// Wait for the next event.
    Wait,
    /// Probe the terminal's size, then wait.
    Probe,
    /// Draw the menu anew (and probe).
    Redraw,
    /// Scan the ROM directory again, then draw.
    Rescan,
    /// Leave the door.
    Quit,
    /// Launch the ROM of this index.
    Launch(usize),
}

/// What is to be done after an event.
#[derive(Clone, Copy, PartialEq, Eq, Debug)]
pub struct Outcome {
    /// Ask the terminal to take this size (rows, cols).
    pub resize: Option<(u16, u16)>,
    /// Persist the preferences.
    pub persist: bool,
    pub next: Next,
}

/// What is written to the terminal to ask it for another size: nothing, when none
/// is wanted.
pub open spec fn asked_of_terminal(outcome: Outcome) -> Seq<char> {
    match outcome.resize {
        Some((rows, cols)) => session::resize_text(rows, cols),
        None => Seq::empty(),
    }
}

impl Outcome {
    /// The text that asks the terminal for another size, empty when none is wanted.
    pub fn resize_request(&self) -> (s: String)
        ensures
            s@ == asked_of_terminal(*self),
    {
        match self.resize {
            Some((rows, cols)) => session::resize_terminal(rows, cols),
            None => {
                let none = String::new();
                none
            },
        }
    }
}

pub open spec fn only(next: Next) -> Outcome {
    Outcome { resize: None, persist: false, next }
}

/// What the menu loop knows.
#[verifier::ext_equal]
pub struct Browsing {
    pub menu: Menu,
    pub rows: u16,
    pub cols: u16,
    /// Time of the last type-ahead keystroke.
    pub last_key: Option<u64>,
    /// The caller's own terminal size, while "Best" has replaced it.
    pub screen_orig: Option<(u16, u16)>,
}

/// Unicode control characters.
pub open spec fn is_control(c: char) -> bool {
    c <= '\u{1f}' || '\u{7f}' <= c <= '\u{9f}'
}

/// Is the type-ahead too old to go on with?
pub open spec fn is_stale(last_key: Option<u64>, now: u64) -> bool {
    match last_key {
        Some(t) => now > t && now - t > TYPEAHEAD_RESET,
        None => true,
    }
}

/// A printable key while the game list has the focus: an incremental search.
pub open spec fn on_typed(l: Browsing, c: char, now: u64) -> Browsing {
    let so_far = if is_stale(l.last_key, now) {
        Seq::empty()
    } else {
        l.menu.typeahead
    };
    Browsing {
        menu: menu_state::typed_ahead(Menu { typeahead: so_far.push(c), ..l.menu }),
        last_key: Some(now),
        ..l
    }
}

/// Backspace while the game list has the focus.
pub open spec fn on_erased(l: Browsing, now: u64) -> Browsing {
    let shorter = if l.menu.typeahead.len() == 0 {
        l.menu.typeahead
    } else {
        l.menu.typeahead.drop_last()
    };
    Browsing {
        menu: menu_state::typed_ahead(Menu { typeahead: shorter, ..l.menu }),
        last_key: Some(now),
        ..l
    }
}

/// Up: one game up, or out of the list at its top; one setting up elsewhere.
pub open spec fn moved_up(m: Menu) -> Menu {
    if m.section == MenuSection::GameList && m.filtered.len() > 0 {
        if m.selected > 0 {
            menu_state::made_visible(Menu { selected: m.selected - 1, ..m })
        } else {
            Menu { typeahead: Seq::empty(), section: menu::section_before(m.section), ..m }
        }
    } else {
        Menu { section: menu::section_before(m.section), ..m }
    }
}

/// Down: one game down, or out of the list at its bottom; one setting down
/// elsewhere.
pub open spec fn moved_down(m: Menu) -> Menu {
    if m.section == MenuSection::GameList && m.filtered.len() > 0 {
        if m.selected + 1 < m.filtered.len() {
            menu_state::made_visible(Menu { selected: m.selected + 1, ..m })
        } else {
            Menu { typeahead: Seq::empty(), section: menu::section_after(m.section), ..m }
        }
    } else {
        Menu { section: menu::section_after(m.section), ..m }
    }
}

/// Tab: between the settings and the game list, each keeping its place.
pub open spec fn tabbed(m: Menu) -> Menu {
    Menu {
        typeahead: Seq::empty(),
        section: if m.section == MenuSection::GameList {
            m.last_settings
        } else {
            MenuSection::GameList
        },
        ..m
    }
}

pub open spec fn other_mode(mode: RenderMode) -> RenderMode {
    match mode {
        RenderMode::Ascii => RenderMode::Block,
        RenderMode::Block => RenderMode::Ascii,
    }
}

/// The terminal synced to the screen-size setting: "Best" captures the current
/// size and resizes to the ideal, once; "Auto" restores the captured size.
pub open spec fn synced(l: Browsing) -> (Browsing, Outcome) {
    match l.menu.screen {
        ScreenSize::Best => if l.screen_orig is None {
            (
                Browsing { screen_orig: Some((l.rows, l.cols)), ..l },
                Outcome { resize: Some((BEST_ROWS, BEST_COLS)), persist: true, next: Next::Redraw },
            )
        } else {
            (l, Outcome { resize: None, persist: true, next: Next::Redraw })
        },
        ScreenSize::Auto => (
            Browsing { screen_orig: None, ..l },
            Outcome { resize: l.screen_orig, persist: true, next: Next::Redraw },
        ),
    }
}

/// Left, Right or Space: the focused setting is changed (backwards with Left).
pub open spec fn changed(l: Browsing, back: bool) -> (Browsing, Outcome) {
    let m = l.menu;
    let kept = Outcome { resize: None, persist: true, next: Next::Redraw };
    match m.section {
        MenuSection::RenderMode => (
            Browsing { menu: Menu { render_mode: other_mode(m.render_mode), ..m }, ..l },
            kept,
        ),
        MenuSection::Audio => (
            Browsing {
                menu: Menu {
                    sound: if back {
                        menu::sound_before(m.sound)
                    } else {
                        menu::sound_after(m.sound)
                    },
                    ..m
                },
                ..l
            },
            kept,
        ),
        MenuSection::Filter => (
            Browsing {
                menu: menu_state::refiltered(
                    Menu {
                        filter: if back {
                            menu::filter_before(m.filter)
                        } else {
                            menu::filter_after(m.filter)
                        },
                        ..m
                    },
                ),
                ..l
            },
            kept,
        ),
        MenuSection::Screen => synced(
            Browsing { menu: Menu { screen: menu::screen_after(m.screen), ..m }, ..l },
        ),
        MenuSection::GameList => (l, only(Next::Redraw)),
    }
}

/// Z or Enter: launch the game under the cursor, or step the focused setting.
pub open spec fn confirmed(l: Browsing) -> (Browsing, Outcome) {
    if l.menu.section == MenuSection::GameList {
        match menu_state::under_cursor(l.menu) {
            Some(i) => (l, only(Next::Launch(i))),
            None => (l, only(Next::Redraw)),
        }
    } else {
        changed(l, false)
    }
}

/// What a key does, but for typing in the game list.
pub open spec fn on_command(l: Browsing, key: Key) -> (Browsing, Outcome) {
    let redraw = only(Next::Redraw);
    match key {
        Key::Esc => (l, only(Next::Quit)),
        Key::Char(c) => if c == 'q' || c == 'Q' || c == 'x' || c == 'X' {
            (l, only(Next::Quit))
        } else if c == ' ' {
            changed(l, false)
        } else if c == 'z' || c == 'Z' {
            confirmed(l)
        } else if c == 'r' || c == 'R' {
            (l, only(Next::Rescan))
        } else {
            (l, redraw)
        },
        Key::Up => (Browsing { menu: moved_up(l.menu), ..l }, redraw),
        Key::Down => (Browsing { menu: moved_down(l.menu), ..l }, redraw),
        Key::PageUp => if l.menu.section == MenuSection::GameList {
            (Browsing { menu: menu_state::paged(l.menu, true), ..l }, redraw)
        } else {
            (l, redraw)
        },
        Key::PageDown => if l.menu.section == MenuSection::GameList {
            (Browsing { menu: menu_state::paged(l.menu, false), ..l }, redraw)
        } else {
            (l, redraw)
        },
        Key::Tab => (Browsing { menu: tabbed(l.menu), ..l }, redraw),
        Key::BackTab => (Browsing { menu: tabbed(l.menu), ..l }, redraw),
        Key::Left => changed(l, true),
        Key::Right => changed(l, false),
        Key::Enter => confirmed(l),
        Key::Backspace => (l, redraw),
    }
}

/// The focused settings row is remembered, so that Tab can return to it.
pub open spec fn remembered(l: Browsing) -> Browsing {
    if l.menu.section == MenuSection::GameList {
        l
    } else {
        Browsing { menu: Menu { last_settings: l.menu.section, ..l.menu }, ..l }
    }
}

/// What a key does.
pub open spec fn on_key(l: Browsing, key: Key, now: u64) -> (Browsing, Outcome) {
    if l.menu.section == MenuSection::GameList && key is Char && !is_control(key->Char_0) {
        (on_typed(l, key->Char_0, now), only(Next::Redraw))
    } else if l.menu.section == MenuSection::GameList && key == Key::Backspace {
        (on_erased(l, now), only(Next::Redraw))
    } else {
        let (after, outcome) = on_command(l, key);
        (remembered(after), outcome)
    }
}

/// What a size report does: the list takes the new height. While a persisted
/// "Best" is not applied yet, the report is the caller's own size: it is captured
/// and the terminal resized.
pub open spec fn on_resize(l: Browsing, rows: u16, cols: u16) -> (Browsing, Outcome) {
    if l.menu.screen == ScreenSize::Best && l.screen_orig is None {
        (
            Browsing { screen_orig: Some((rows, cols)), ..l },
            Outcome { resize: Some((BEST_ROWS, BEST_COLS)), persist: false, next: Next::Redraw },
        )
    } else if rows >= 10 && rows != l.rows {
        (
            Browsing {
                menu: Menu { visible: menu::rows_for(rows as int), ..l.menu },
                rows,
                cols,
                ..l
            },
            only(Next::Redraw),
        )
    } else {
        (Browsing { cols, ..l }, only(Next::Wait))
    }
}

/// What an event does to the menu loop.
pub open spec fn happened(l: Browsing, event: MenuEvent, now: u64) -> (Browsing, Outcome) {
    match event {
        MenuEvent::Key(key) => on_key(l, key, now),
        MenuEvent::Resize(rows, cols) => on_resize(l, rows, cols),
        MenuEvent::Idle => (l, only(Next::Probe)),
    }
}

// ---------------------------------------------------------------------------
// Executable side
// ---------------------------------------------------------------------------

/// The menu and what surrounds it: the terminal's size, the type-ahead clock.
#[derive(Debug)]
pub struct MenuLoop {
    pub state: MenuState,
    /// The caller's terminal size, so the game list fills the screen. It starts at
    /// the 80x24 fallback and self-corrects from the first probe reply.
    pub term_rows: u16,
    pub term_cols: u16,
    pub last_key: Option<u64>,
    pub screen_orig: Option<(u16, u16)>,
}

impl View for MenuLoop {
    type V = Browsing;

    open spec fn view(&self) -> Browsing {
        Browsing {
            menu: self.state@,
            rows: self.term_rows,
            cols: self.term_cols,
            last_key: self.last_key,
            screen_orig: self.screen_orig,
        }
    }
}

fn control(c: char) -> (r: bool)
    ensures
        r == is_control(c),
{
    c <= '\u{1f}' || ('\u{7f}' <= c && c <= '\u{9f}')
}

fn outcome(next: Next) -> (r: Outcome)
    ensures
        r == only(next),
{
    Outcome { resize: None, persist: false, next }
}

impl MenuLoop {
    /// Enter the menu, at the fallback terminal size.
    pub fn new(state: MenuState, screen_orig: Option<(u16, u16)>) -> (r: Self)
        requires
            menu_state::is_valid(state@),
        ensures
            r@ == (Browsing {
                menu: Menu { visible: menu::rows_for(24), ..state@ },
                rows: 24,
                cols: 80,
                last_key: None,
                screen_orig,
            }),
            menu_state::is_valid(r@.menu),
    {
        let mut state = state;
        state.visible_rows = menu::visible_for(24);
        MenuLoop { state, term_rows: 24, term_cols: 80, last_key: None, screen_orig }
    }

    fn type_char(&mut self, c: char, now: u64)
        requires
            menu_state::is_valid(old(self)@.menu),
        ensures
            final(self)@ == on_typed(old(self)@, c, now),
            menu_state::is_valid(final(self)@.menu),
    {
        let stale = match self.last_key {
            Some(t) => now > t && now - t > TYPEAHEAD_RESET,
            None => true,
        };
        if stale {
            self.state.typeahead.clear();
            assert(self.state.typeahead@ =~= Seq::<char>::empty());
        }
        self.last_key = Some(now);
        self.state.typeahead.push(c);
        self.state.typeahead_jump();
    }

    fn erase_char(&mut self, now: u64)
        requires
            menu_state::is_valid(old(self)@.menu),
        ensures
            final(self)@ == on_erased(old(self)@, now),
            menu_state::is_valid(final(self)@.menu),
    {
        self.state.typeahead.pop();
        self.last_key = Some(now);
        self.state.typeahead_jump();
    }

    fn move_up(&mut self)
        requires
            menu_state::is_valid(old(self)@.menu),
        ensures
            final(self)@ == (Browsing { menu: moved_up(old(self)@.menu), ..old(self)@ }),
            menu_state::is_valid(final(self)@.menu),
    {
        if self.state.current_section == MenuSection::GameList && self.state.filtered.len() > 0 {
            if self.state.selected_rom_index > 0 {
                self.state.selected_rom_index -= 1;
                self.state.ensure_visible();
            } else {
                // At the top of the game list: step back into settings
                self.state.typeahead.clear();
                assert(self.state.typeahead@ =~= Seq::<char>::empty());
                self.state.current_section = self.state.current_section.prev();
            }
        } else {
            self.state.current_section = self.state.current_section.prev();
        }
    }

    fn move_down(&mut self)
        requires
            menu_state::is_valid(old(self)@.menu),
        ensures
            final(self)@ == (Browsing { menu: moved_down(old(self)@.menu), ..old(self)@ }),
            menu_state::is_valid(final(self)@.menu),
    {
        if self.state.current_section == MenuSection::GameList && self.state.filtered.len() > 0 {
            if self.state.selected_rom_index + 1 < self.state.filtered.len() {
                self.state.selected_rom_index += 1;
                self.state.ensure_visible();
            } else {
                // At the bottom of the game list: wrap back to settings
                self.state.typeahead.clear();
                assert(self.state.typeahead@ =~= Seq::<char>::empty());
                self.state.current_section = self.state.current_section.next();
            }
        } else {
            self.state.current_section = self.state.current_section.next();
        }
    }

    fn tab(&mut self)
        requires
            menu_state::is_valid(old(self)@.menu),
        ensures
            final(self)@ == (Browsing { menu: tabbed(old(self)@.menu), ..old(self)@ }),
            menu_state::is_valid(final(self)@.menu),
    {
        self.state.typeahead.clear();
        assert(self.state.typeahead@ =~= Seq::<char>::empty());
        self.state.current_section = if self.state.current_section == MenuSection::GameList {
            self.state.last_settings
        } else {
            MenuSection::GameList
        };
    }

    fn turn_page(&mut self, up: bool)
        requires
            menu_state::is_valid(old(self)@.menu),
        ensures
            old(self)@.menu.section == MenuSection::GameList ==> final(self)@ == (Browsing {
                menu: menu_state::paged(old(self)@.menu, up),
                ..old(self)@
            }),
            old(self)@.menu.section != MenuSection::GameList ==> final(self)@ == old(self)@,
            menu_state::is_valid(final(self)@.menu),
    {
        if self.state.current_section == MenuSection::GameList {
            assert(self.state.filtered@.len() == self.state.filtered.len());
            self.state.page(up);
        }
    }

    /// Sync the terminal to the chosen `ScreenSize` after it changes. "Best"
    /// captures the current size and resizes to the ideal; "Auto" restores the
    /// captured size. Idempotent, and persists the preference.
    pub fn apply_screen(&mut self) -> (r: Outcome)
        ensures
            (final(self)@, r) == synced(old(self)@),
    {
        let mut resize: Option<(u16, u16)> = None;
        match self.state.screen {
            ScreenSize::Best => {
                if self.screen_orig.is_none() {
                    self.screen_orig = Some((self.term_rows, self.term_cols));
                    resize = Some((BEST_ROWS, BEST_COLS));
                }
            },
            ScreenSize::Auto => {
                resize = self.screen_orig;
                self.screen_orig = None;
            },
        }
        Outcome { resize, persist: true, next: Next::Redraw }
    }

    /// Change the focused setting.
    fn change(&mut self, back: bool) -> (r: Outcome)
        requires
            menu_state::is_valid(old(self)@.menu),
        ensures
            (final(self)@, r) == changed(old(self)@, back),
            menu_state::is_valid(final(self)@.menu),
    {
        match self.state.current_section {
            MenuSection::RenderMode => {
                self.state.render_mode = match self.state.render_mode {
                    RenderMode::Ascii => RenderMode::Block,
                    RenderMode::Block => RenderMode::Ascii,
                };
            },
            MenuSection::Audio => {
                self.state.sound = if back {
                    self.state.sound.prev()
                } else {
                    self.state.sound.next()
                };
            },
            MenuSection::Filter => {
                self.state.filter = if back {
                    self.state.filter.prev()
                } else {
                    self.state.filter.next()
                };
                self.state.rebuild_filter();
            },
            MenuSection::Screen => {
                self.state.screen = self.state.screen.next();
                return self.apply_screen();
            },
            MenuSection::GameList => {
                return outcome(Next::Redraw);
            },
        }
        Outcome { resize: None, persist: true, next: Next::Redraw }
    }

    fn confirm(&mut self) -> (r: Outcome)
        requires
            menu_state::is_valid(old(self)@.menu),
        ensures
            (final(self)@, r) == confirmed(old(self)@),
            menu_state::is_valid(final(self)@.menu),
    {
        if self.state.current_section == MenuSection::GameList {
            return match self.state.selected_rom() {
                Some(i) => outcome(Next::Launch(i)),
                None => outcome(Next::Redraw),
            };
        }
        self.change(false)
    }

    fn command(&mut self, key: Key) -> (r: Outcome)
        requires
            menu_state::is_valid(old(self)@.menu),
        ensures
            (final(self)@, r) == on_command(old(self)@, key),
            menu_state::is_valid(final(self)@.menu),
    {
        match key {
            Key::Esc => outcome(Next::Quit),
            Key::Char(c) => {
                if c == 'q' || c == 'Q' || c == 'x' || c == 'X' {
                    outcome(Next::Quit)
                } else if c == ' ' {
                    self.change(false)
                } else if c == 'z' || c == 'Z' {
                    self.confirm()
                } else if c == 'r' || c == 'R' {
                    outcome(Next::Rescan)
                } else {
                    outcome(Next::Redraw)
                }
            },
            Key::Left => self.change(true),
            Key::Right => self.change(false),
            Key::Enter => self.confirm(),
            _ => {
                match key {
                    Key::Up => self.move_up(),
                    Key::Down => self.move_down(),
                    Key::PageUp => self.turn_page(true),
                    Key::PageDown => self.turn_page(false),
                    // Tab jumps between the Settings zone and the game list,
                    // keeping the game-list selection where it was.
                    Key::Tab | Key::BackTab => self.tab(),
                    _ => {},
                }
                outcome(Next::Redraw)
            },
        }
    }

    fn key(&mut self, key: Key, now: u64) -> (r: Outcome)
        requires
            menu_state::is_valid(old(self)@.menu),
        ensures
            (final(self)@, r) == on_key(old(self)@, key, now),
            menu_state::is_valid(final(self)@.menu),
    {
        // While the game list is focused, printable keys drive an incremental
        // search instead of menu shortcuts (so a title like "Zelda" doesn't trip
        // the "Z = confirm" shortcut). Enter still confirms, Esc backs out, and
        // the arrows/Tab still navigate.
        if self.state.current_section == MenuSection::GameList {
            match key {
                Key::Char(c) => {
                    if !control(c) {
                        self.type_char(c, now);
                        return outcome(Next::Redraw);
                    }
                },
                Key::Backspace => {
                    self.erase_char(now);
                    return outcome(Next::Redraw);
                },
                _ => {},
            }
        }
        let r = self.command(key);
        // Remember the focused settings row so Tab can return to it.
        if self.state.current_section != MenuSection::GameList {
            self.state.last_settings = self.state.current_section;
        }
        r
    }

    /// Take what happened, at time `now` (in nanoseconds), and say what is to be
    /// done.
    #[verifier::rlimit(40)]
    pub fn on_event(&mut self, event: MenuEvent, now: u64) -> (r: Outcome)
        requires
            menu_state::is_valid(old(self)@.menu),
        ensures
            (final(self)@, r) == happened(old(self)@, event, now),
            menu_state::is_valid(final(self)@.menu),
            r.next matches Next::Launch(i) ==> i < final(self)@.menu.roms.len(),
    {
        match event {
            MenuEvent::Key(key) => self.key(key, now),
            MenuEvent::Resize(rows, cols) => {
                if self.state.screen == ScreenSize::Best && self.screen_orig.is_none() {
                    self.screen_orig = Some((rows, cols));
                    return Outcome {
                        resize: Some((BEST_ROWS, BEST_COLS)),
                        persist: false,
                        next: Next::Redraw,
                    };
                }
                self.term_cols = cols;
                if rows >= 10 && rows != self.term_rows {
                    self.term_rows = rows;
                    self.state.visible_rows = menu::visible_for(rows);
                    return outcome(Next::Redraw);
                }
                outcome(Next::Wait)
            },
            MenuEvent::Idle => outcome(Next::Probe),
        }
    }

    /// What a launch of the ROM of index `i` comes to.
    pub fn launch(&self, i: usize) -> (r: MenuConfig)
        requires
            i < self.state.rom_files@.len(),
        ensures
            r.rom_path@ == self.state.rom_files@[i as int].path@,
            r.render_mode == self.state.render_mode,
            r.sound == self.state.sound,
            r.color == self.state.color,
            r.dmg_palette == self.state.dmg_palette,
    {
        MenuConfig {
            rom_path: self.state.rom_files[i].path.clone(),
            render_mode: self.state.render_mode,
            sound: self.state.sound,
            color: self.state.color,
            dmg_palette: self.state.dmg_palette,
        }
    }
}

// ---------------------------------------------------------------------------
// Laws
// ---------------------------------------------------------------------------

/// No key loses the cursor: when it stands in the window, it does so afterwards.
#[verifier::rlimit(40)]
pub proof fn law_keys_keep_cursor_visible(l: Browsing, key: Key, now: u64)
    requires
        menu_state::is_valid(l.menu),
        menu_state::is_shown(l.menu),
    ensures
        menu_state::is_shown(on_key(l, key, now).0.menu),
{
}

/// Typing in the game list only searches: no printable key quits, launches or
/// changes a setting there.
pub proof fn law_typing_only_searches(l: Browsing, c: char, now: u64)
    requires
        l.menu.section == MenuSection::GameList,
        !is_control(c),
    ensures
        ({
            let (after, outcome) = on_key(l, Key::Char(c), now);
            &&& outcome == only(Next::Redraw)
            &&& after.menu.section == MenuSection::GameList
            &&& after.menu.render_mode == l.menu.render_mode
            &&& after.menu.sound == l.menu.sound
            &&& after.menu.filter == l.menu.filter
            &&& after.menu.screen == l.menu.screen
            &&& after.menu.filtered == l.menu.filtered
        }),
{
}

/// A game is launched by Enter in the game list and by nothing else, and it is the
/// one under the cursor.
pub proof fn law_only_enter_launches(l: Browsing, event: MenuEvent, now: u64, i: usize)
    ensures
        happened(l, event, now).1.next == Next::Launch(i) <==> event == MenuEvent::Key(Key::Enter)
            && l.menu.section == MenuSection::GameList && menu_state::under_cursor(l.menu) == Some(i),
{
}

proof fn lemma_change_is_persisted(l: Browsing, back: bool)
    ensures
        ({
            let (after, outcome) = changed(l, back);
            outcome.persist <==> !same_settings(after.menu, l.menu)
        }),
{
}

/// The settings that the menu manages.
pub open spec fn same_settings(a: Menu, b: Menu) -> bool {
    a.render_mode == b.render_mode && a.sound == b.sound && a.filter == b.filter && a.screen
        == b.screen
}

proof fn lemma_moves_keep_settings(m: Menu)
    ensures
        same_settings(moved_up(m), m),
        same_settings(moved_down(m), m),
        same_settings(tabbed(m), m),
        same_settings(menu_state::paged(m, true), m),
        same_settings(menu_state::paged(m, false), m),
        same_settings(menu_state::typed_ahead(m), m),
{
}

/// Every change of a setting is persisted, and nothing else is.
#[verifier::rlimit(40)]
pub proof fn law_changes_are_persisted(l: Browsing, event: MenuEvent, now: u64)
    requires
        menu_state::is_valid(l.menu),
    ensures
        ({
            let (after, outcome) = happened(l, event, now);
            outcome.persist <==> !same_settings(after.menu, l.menu)
        }),
{
    lemma_change_is_persisted(l, true);
    lemma_change_is_persisted(l, false);
    lemma_moves_keep_settings(l.menu);
    if let MenuEvent::Key(key) = event {
        if l.menu.section == MenuSection::GameList {
            if key is Char && !is_control(key->Char_0) {
                let so_far = if is_stale(l.last_key, now) {
                    Seq::empty()
                } else {
                    l.menu.typeahead
                };
                lemma_moves_keep_settings(Menu { typeahead: so_far.push(key->Char_0), ..l.menu });
            } else if key == Key::Backspace {
                let shorter = if l.menu.typeahead.len() == 0 {
                    l.menu.typeahead
                } else {
                    l.menu.typeahead.drop_last()
                };
                lemma_moves_keep_settings(Menu { typeahead: shorter, ..l.menu });
            }
        }
    }
}

/// "Best" and back: the terminal gets its own size again, the one it had before
/// the first resize.
pub proof fn law_best_is_undone(l: Browsing)
    requires
        l.menu.section == MenuSection::Screen,
        l.menu.screen == ScreenSize::Auto,
        l.screen_orig is None,
    ensures
        ({
            let (best, first) = changed(l, false);
            let (back, second) = changed(best, false);
            &&& first.resize == Some((BEST_ROWS, BEST_COLS))
            &&& second.resize == Some((l.rows, l.cols))
            &&& back == l
        }),
{
}

/// "Best" captures the terminal's size and asks for the ideal one, 74 rows of 162
/// columns; when a size is captured already it asks for nothing and keeps that.
/// "Auto" asks for the captured size and forgets it; with none captured it asks for
/// nothing.
pub proof fn law_screen_follows_the_setting(l: Browsing)
    ensures
        ({
            let (after, outcome) = synced(l);
            match (l.menu.screen, l.screen_orig) {
                (ScreenSize::Best, None) => {
                    &&& after == (Browsing { screen_orig: Some((l.rows, l.cols)), ..l })
                    &&& asked_of_terminal(outcome) == "\x1b[8;74;162t"@
                },
                (ScreenSize::Best, Some(_)) => {
                    &&& after == l
                    &&& asked_of_terminal(outcome) == Seq::<char>::empty()
                },
                (ScreenSize::Auto, Some(size)) => {
                    &&& after == (Browsing { screen_orig: None, ..l })
                    &&& asked_of_terminal(outcome) == session::resize_text(size.0, size.1)
                },
                (ScreenSize::Auto, None) => {
                    &&& after == l
                    &&& asked_of_terminal(outcome) == Seq::<char>::empty()
                },
            }
        }),
{
    reveal_strlit("\x1b[8;");
    reveal_strlit(";");
    reveal_strlit("t");
    reveal_strlit("\x1b[8;74;162t");
    reveal_with_fuel(crate::text::decimal, 4);
    assert(crate::text::decimal(74) == seq!['7', '4']);
    assert(crate::text::decimal(162) == seq!['1', '6', '2']);
    assert(session::resize_text(BEST_ROWS, BEST_COLS) == "\x1b[8;74;162t"@);
}

/// Syncing the terminal twice is syncing it once: the second time asks it for
/// nothing.
pub proof fn law_screen_sync_is_idempotent(l: Browsing)
    ensures
        synced(synced(l).0).0 == synced(l).0,
        asked_of_terminal(synced(synced(l).0).1) == Seq::<char>::empty(),
{
}

/// Tab pops out of the game list and back into it without losing either place.
pub proof fn law_tab_returns(l: Browsing, now: u64)
    requires
        l.menu.section == MenuSection::GameList,
        l.menu.last_settings != MenuSection::GameList,
    ensures
        ({
            let (out, _) = on_key(l, Key::Tab, now);
            let (back, _) = on_key(out, Key::Tab, now);
            &&& out.menu.section == l.menu.last_settings
            &&& back.menu == (Menu { typeahead: Seq::empty(), ..l.menu })
        }),
{
}

/// The caller's own size, once captured, is not overwritten while "Best" lasts.
pub proof fn law_captured_size_is_kept(l: Browsing, event: MenuEvent, now: u64)
    requires
        l.screen_orig is Some,
        l.menu.screen == ScreenSize::Best,
    ensures
        happened(l, event, now).0.menu.screen == ScreenSize::Best ==> happened(
            l,
            event,
            now,
        ).0.screen_orig == l.screen_orig,
{
}

/// **Up and Down move the cursor by one game.** Away from the ends of the list nothing
/// else changes but the window, which follows; so Down and then Up leaves the cursor
/// where it was.
pub proof fn law_up_and_down_move_by_one(l: Browsing, now: u64)
    requires
        l.menu.section == MenuSection::GameList,
        0 <= l.menu.selected < l.menu.filtered.len(),
    ensures
        ({
            let up = happened(l, MenuEvent::Key(Key::Up), now).0;
            let down = happened(l, MenuEvent::Key(Key::Down), now).0;
            let back = happened(down, MenuEvent::Key(Key::Up), now).0;
            &&& l.menu.selected > 0 ==> up == (Browsing {
                menu: Menu { selected: l.menu.selected - 1, scroll: up.menu.scroll, ..l.menu },
                ..l
            })
            &&& l.menu.selected + 1 < l.menu.filtered.len() ==> down == (Browsing {
                menu: Menu { selected: l.menu.selected + 1, scroll: down.menu.scroll, ..l.menu },
                ..l
            }) && back.menu.selected == l.menu.selected && back.menu.section
                == MenuSection::GameList
        }),
{
}

/// At the ends of the list (or in an empty one) Up and Down leave it for the settings:
/// up for the last of them, down for the first. Among the settings they go from one to
/// the next, and on into the list.
pub proof fn law_up_and_down_move_between_sections(l: Browsing, now: u64)
    requires
        0 <= l.menu.selected,
    ensures
        ({
            let m = l.menu;
            let up = happened(l, MenuEvent::Key(Key::Up), now).0.menu;
            let down = happened(l, MenuEvent::Key(Key::Down), now).0.menu;
            let n = m.filtered.len();
            match m.section {
                MenuSection::RenderMode => up.section == MenuSection::GameList && down.section
                    == MenuSection::Audio,
                MenuSection::Audio => up.section == MenuSection::RenderMode && down.section
                    == MenuSection::Filter,
                MenuSection::Filter => up.section == MenuSection::Audio && down.section
                    == MenuSection::Screen,
                MenuSection::Screen => up.section == MenuSection::Filter && down.section
                    == MenuSection::GameList,
                MenuSection::GameList => {
                    &&& n == 0 || m.selected == 0 ==> up.section == MenuSection::Screen
                        && up.selected == m.selected
                    &&& n == 0 || m.selected + 1 >= n ==> down.section == MenuSection::RenderMode
                        && down.selected == m.selected
                },
            }
        }),
{
}

/// **Left and Right change the setting in focus, and only that.** Right goes on in the
/// order of the settings, Left back; Space and Enter (and Z) do what Right does. A new
/// filter starts its list at the top.
pub proof fn law_left_and_right_change_the_setting(l: Browsing, now: u64)
    requires
        l.menu.section != MenuSection::GameList,
    ensures
        ({
            let m = l.menu;
            let right = happened(l, MenuEvent::Key(Key::Right), now);
            let left = happened(l, MenuEvent::Key(Key::Left), now);
            let after = right.0.menu;
            let before = left.0.menu;
            &&& happened(l, MenuEvent::Key(Key::Enter), now) == right
            &&& happened(l, MenuEvent::Key(Key::Char(' ')), now) == right
            &&& happened(l, MenuEvent::Key(Key::Char('z')), now) == right
            &&& happened(l, MenuEvent::Key(Key::Char('Z')), now) == right
            &&& after.section == m.section && before.section == m.section
            &&& m.section != MenuSection::RenderMode ==> after.render_mode == m.render_mode
                && before.render_mode == m.render_mode
            &&& m.section != MenuSection::Audio ==> after.sound == m.sound && before.sound
                == m.sound
            &&& m.section != MenuSection::Filter ==> after.filter == m.filter && before.filter
                == m.filter && after.filtered == m.filtered && after.selected == m.selected
                && before.selected == m.selected
            &&& m.section != MenuSection::Screen ==> after.screen == m.screen && before.screen
                == m.screen
            &&& m.section == MenuSection::RenderMode ==> after.render_mode != m.render_mode
                && before.render_mode != m.render_mode
            &&& m.section == MenuSection::Screen ==> after.screen != m.screen && before.screen
                != m.screen
            &&& m.section == MenuSection::Audio ==> (match m.sound {
                menu::SoundMode::Off => after.sound == menu::SoundMode::Ansi && before.sound == menu::SoundMode::Apc,
                menu::SoundMode::Ansi => after.sound == menu::SoundMode::Apc && before.sound
                    == menu::SoundMode::Off,
                menu::SoundMode::Apc => after.sound == menu::SoundMode::Off && before.sound
                    == menu::SoundMode::Ansi,
            })
            &&& m.section == MenuSection::Filter ==> (match m.filter {
                menu::RomFilter::All => after.filter == menu::RomFilter::GameBoy && before.filter
                    == menu::RomFilter::GameBoyColor,
                menu::RomFilter::GameBoy => after.filter == menu::RomFilter::GameBoyColor && before.filter
                    == menu::RomFilter::All,
                menu::RomFilter::GameBoyColor => after.filter == menu::RomFilter::All && before.filter
                    == menu::RomFilter::GameBoy,
            }) && after.filtered == menu_state::passing(m.roms, after.filter, m.roms.len())
                && after.selected == 0 && after.scroll == 0 && before.selected == 0
        }),
{
}

/// Left and Right do nothing in the game list.
pub proof fn law_left_and_right_leave_the_list_alone(l: Browsing, now: u64)
    requires
        l.menu.section == MenuSection::GameList,
    ensures
        happened(l, MenuEvent::Key(Key::Left), now) == (l, only(Next::Redraw)),
        happened(l, MenuEvent::Key(Key::Right), now) == (l, only(Next::Redraw)),
{
}

/// What leaves the menu, what scans again, and what probes: Esc quits anywhere; among
/// the settings Q and X quit and R scans again; an idle tick probes.
pub proof fn law_commands(l: Browsing, event: MenuEvent, now: u64)
    ensures
        ({
            let next = happened(l, event, now).1.next;
            let in_list = l.menu.section == MenuSection::GameList;
            &&& next == Next::Quit <==> event == MenuEvent::Key(Key::Esc) || !in_list && (event
                == MenuEvent::Key(Key::Char('q')) || event == MenuEvent::Key(Key::Char('Q'))
                || event == MenuEvent::Key(Key::Char('x')) || event == MenuEvent::Key(
                Key::Char('X'),
            ))
            &&& next == Next::Rescan <==> !in_list && (event == MenuEvent::Key(Key::Char('r'))
                || event == MenuEvent::Key(Key::Char('R')))
            &&& next == Next::Probe <==> event == MenuEvent::Idle
            &&& next is Quit || next is Rescan || next is Probe ==> same_settings(
                happened(l, event, now).0.menu,
                l.menu,
            ) && happened(l, event, now).0.menu.selected == l.menu.selected
        }),
{
}

/// Enter in the list launches the game that the filtered list names at the cursor.
pub proof fn law_enter_launches_the_game_at_the_cursor(l: Browsing, now: u64)
    requires
        l.menu.section == MenuSection::GameList,
        0 <= l.menu.selected < l.menu.filtered.len(),
    ensures
        happened(l, MenuEvent::Key(Key::Enter), now) == (
            l,
            only(Next::Launch(l.menu.filtered[l.menu.selected])),
        ),
{
}

/// The page keys turn the pages of the list, and do nothing among the settings; Shift-Tab
/// does what Tab does, which goes to the list from any setting.
pub proof fn law_page_and_tab_keys(l: Browsing, now: u64)
    ensures
        ({
            let m = l.menu;
            let up = happened(l, MenuEvent::Key(Key::PageUp), now).0.menu;
            let down = happened(l, MenuEvent::Key(Key::PageDown), now).0.menu;
            let tab = happened(l, MenuEvent::Key(Key::Tab), now);
            &&& happened(l, MenuEvent::Key(Key::BackTab), now) == tab
            &&& m.section == MenuSection::GameList ==> up == menu_state::paged(m, true) && down
                == menu_state::paged(m, false) && tab.0.menu.section == m.last_settings
            &&& m.section != MenuSection::GameList ==> up == (Menu { last_settings: m.section, ..m })
                && down == (Menu { last_settings: m.section, ..m }) && tab.0.menu.section
                == MenuSection::GameList
        }),
{
}

/// The setting that was in focus last is remembered, to come back to.
pub proof fn law_last_setting_is_remembered(l: Browsing, key: Key, now: u64)
    ensures
        ({
            let m = on_key(l, key, now).0.menu;
            if m.section == MenuSection::GameList {
                m.last_settings == l.menu.last_settings
            } else {
                m.last_settings == m.section
            }
        }),
{
}

/// Typing on within a second lengthens what was typed; after a longer pause, or at
/// first, it begins anew. Backspace takes the last character back.
pub proof fn law_typeahead_grows_and_resets(l: Browsing, c: char, now: u64)
    requires
        l.menu.section == MenuSection::GameList,
        c >= ' ',
        c <= '~' || c >= '\u{a0}',
    ensures
        ({
            let typed = happened(l, MenuEvent::Key(Key::Char(c)), now).0;
            let erased = happened(l, MenuEvent::Key(Key::Backspace), now).0;
            &&& typed.last_key == Some(now)
            &&& erased.last_key == Some(now)
            &&& typed.menu.typeahead == (match l.last_key {
                Some(t) => if now <= t + 1_000_000_000 {
                    l.menu.typeahead.push(c)
                } else {
                    seq![c]
                },
                None => seq![c],
            })
            &&& l.menu.typeahead.len() > 0 ==> erased.menu.typeahead
                == l.menu.typeahead.drop_last()
            &&& l.menu.typeahead.len() == 0 ==> erased.menu == l.menu
        }),
{
}

/// The game at a place of the list has a name that begins with `needle`.
pub open spec fn is_named(m: Menu, p: int, needle: Seq<char>) -> bool {
    match m.roms[m.filtered[p] as int].lower_name {
        Some(name) => needle.len() <= name.len() && name.take(needle.len() as int) == needle,
        None => false,
    }
}

/// While typing the cursor stands on the first listed game whose name begins with what
/// was typed, both folded to lower case; where there is none it stays.
#[verifier::spinoff_prover]
#[verifier::rlimit(40)]
pub proof fn law_typing_goes_to_the_first_match(l: Browsing, c: char, now: u64, pos: int)
    requires
        l.menu.section == MenuSection::GameList,
        c >= ' ',
        c <= '~' || c >= '\u{a0}',
        0 <= pos < l.menu.filtered.len(),
    ensures
        ({
            let m = happened(l, MenuEvent::Key(Key::Char(c)), now).0.menu;
            let needle = crate::text::folded(m.typeahead);
            &&& is_named(l.menu, pos, needle) ==> m.selected <= pos && is_named(
                l.menu,
                m.selected,
                needle,
            )
            &&& (forall|p: int|
                0 <= p < l.menu.filtered.len() ==> !(#[trigger] is_named(l.menu, p, needle)))
                ==> m.selected == l.menu.selected
        }),
{
    let m = happened(l, MenuEvent::Key(Key::Char(c)), now).0.menu;
    let so_far = if is_stale(l.last_key, now) {
        Seq::empty()
    } else {
        l.menu.typeahead
    };
    let before = Menu { typeahead: so_far.push(c), ..l.menu };
    let needle = crate::text::folded(before.typeahead);
    menu_state::law_typeahead_finds_the_first_match(before, needle);
    assert(m == menu_state::jumped(before, needle));
    assert(m.typeahead == before.typeahead);
    assert forall|p: int|
        menu_state::begins_at(before, p, needle) == #[trigger] is_named(l.menu, p, needle) by {}
    assert forall|p: int|
        #[trigger] menu_state::begins_at(before, p, needle) == is_named(l.menu, p, needle) by {}
    assert(menu_state::begins_at(before, pos, needle) == is_named(l.menu, pos, needle));
}

/// A terminal of another height has the list fill it: all but eleven rows, and at least
/// four. A report of fewer than ten rows is not believed.
pub proof fn law_list_follows_the_terminal(l: Browsing, rows: u16, cols: u16, now: u64)
    requires
        l.menu.screen == ScreenSize::Auto || l.screen_orig is Some,
    ensures
        ({
            let (after, outcome) = happened(l, MenuEvent::Resize(rows, cols), now);
            let height = if rows >= 15 {
                rows - 11
            } else {
                4
            };
            &&& after.cols == cols
            &&& after.screen_orig == l.screen_orig
            &&& rows >= 10 && rows != l.rows ==> after.rows == rows && after.menu == (Menu {
                visible: height,
                ..l.menu
            }) && outcome == only(Next::Redraw)
            &&& rows < 10 || rows == l.rows ==> after.rows == l.rows && after.menu == l.menu
                && outcome == only(Next::Wait)
        }),
{
}

/// "Best" is asked for as soon as the terminal's own size is known, which is kept to be
/// restored.
pub proof fn law_best_awaits_the_size(l: Browsing, rows: u16, cols: u16, now: u64)
    requires
        l.menu.screen == ScreenSize::Best,
        l.screen_orig is None,
    ensures
        happened(l, MenuEvent::Resize(rows, cols), now).0 == (Browsing {
            screen_orig: Some((rows, cols)),
            ..l
        }),
        happened(l, MenuEvent::Resize(rows, cols), now).1.resize == Some((74u16, 162u16)),
{
}

/// The characters that are not typed into a name: those under the blank, delete, and the
/// controls that follow it up to the no-break space.
pub proof fn law_control_characters(c: char)
    ensures
        is_control(c) <==> (c as u32) < 32 || 127 <= (c as u32) < 160,
{
}

} // verus!
