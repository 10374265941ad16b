//! Terminal commands as ANSI text.
//!
//! A door's output is an inherited socket, not a console, so every command is
//! serialized by its ANSI form (`crossterm::Command::write_ansi`), whatever the
//! platform.

use crate::text;
use crossterm::Command;
use vstd::prelude::*;

verus! {

/// `ESC [ row ; col H`, 1-based, for a 0-based column and row.
pub open spec fn move_text(x: int, y: int) -> Seq<char> {
    "\x1b["@ + text::decimal((y + 1) as nat) + ";"@ + text::decimal((x + 1) as nat) + "H"@
}

/// An SGR sequence that sets a 24-bit color; `layer` is 38 (foreground) or 48
/// (background).
pub open spec fn rgb_text(layer: nat, r: u8, g: u8, b: u8) -> Seq<char> {
    "\x1b["@ + text::decimal(layer) + ";2;"@ + text::decimal(r as nat) + ";"@ + text::decimal(
        g as nat,
    ) + ";"@ + text::decimal(b as nat) + "m"@
}

/// What a color command comes to: the color, or an empty SGR where the
/// environment asks for no colors (`NO_COLOR`).
pub open spec fn is_color_text(s: Seq<char>, layer: nat, r: u8, g: u8, b: u8) -> bool {
    s == rgb_text(layer, r, g, b) || s == "\x1b[m"@
}

/// `crossterm::cursor::MoveTo` puts the cursor at a 0-based column and row; its
/// ANSI form counts from 1, which is why the last coordinate is left out.
#[verifier::external_body]
pub(crate) fn move_to(x: u16, y: u16) -> (s: String)
    requires
        x < 0xffff,
        y < 0xffff,
    ensures
        s@ == move_text(x as int, y as int),
{
    let mut s = String::new();
    let _ = crossterm::cursor::MoveTo(x, y).write_ansi(&mut s);
    s
}

/// `crossterm::terminal::Clear` with `ClearType::All` is `ESC [ 2 J`.
#[verifier::external_body]
pub(crate) fn clear_all() -> (s: String)
    ensures
        s@ == "\x1b[2J"@,
{
    let mut s = String::new();
    let _ = crossterm::terminal::Clear(crossterm::terminal::ClearType::All).write_ansi(&mut s);
    s
}

/// `crossterm::style::SetForegroundColor` with an RGB color is `ESC [ 38;2;r;g;b m`,
/// or `ESC [ m` when the environment asks for no colors. Which of the two is not
/// stated: it rests on the environment.
#[verifier::external_body]
pub(crate) fn foreground(r: u8, g: u8, b: u8) -> (s: String)
    ensures
        is_color_text(s@, 38, r, g, b),
{
    let mut s = String::new();
    let color = crossterm::style::Color::Rgb { r, g, b };
    let _ = crossterm::style::SetForegroundColor(color).write_ansi(&mut s);
    s
}

/// `crossterm::style::SetBackgroundColor` with an RGB color is `ESC [ 48;2;r;g;b m`,
/// or `ESC [ m` when the environment asks for no colors. Which of the two is not
/// stated: it rests on the environment.
#[verifier::external_body]
pub(crate) fn background(r: u8, g: u8, b: u8) -> (s: String)
    ensures
        is_color_text(s@, 48, r, g, b),
{
    let mut s = String::new();
    let color = crossterm::style::Color::Rgb { r, g, b };
    let _ = crossterm::style::SetBackgroundColor(color).write_ansi(&mut s);
    s
}

/// `crossterm::style::SetAttribute` with `Attribute::SlowBlink` is `ESC [ 5 m`.
#[verifier::external_body]
pub(crate) fn blink_on() -> (s: String)
    ensures
        s@ == "\x1b[5m"@,
{
    let mut s = String::new();
    let blink = crossterm::style::Attribute::SlowBlink;
    let _ = crossterm::style::SetAttribute(blink).write_ansi(&mut s);
    s
}

/// `crossterm::style::SetAttribute` with `Attribute::NoBlink` is `ESC [ 25 m`.
#[verifier::external_body]
pub(crate) fn blink_off() -> (s: String)
    ensures
        s@ == "\x1b[25m"@,
{
    let mut s = String::new();
    let steady = crossterm::style::Attribute::NoBlink;
    let _ = crossterm::style::SetAttribute(steady).write_ansi(&mut s);
    s
}

/// `crossterm::style::ResetColor` is `ESC [ 0 m`.
#[verifier::external_body]
pub(crate) fn reset_color() -> (s: String)
    ensures
        s@ == "\x1b[0m"@,
{
    let mut s = String::new();
    let _ = crossterm::style::ResetColor.write_ansi(&mut s);
    s
}

/// `crossterm::cursor::Hide` is `ESC [ ?25 l`.
#[verifier::external_body]
pub(crate) fn hide_cursor() -> (s: String)
    ensures
        s@ == "\x1b[?25l"@,
{
    let mut s = String::new();
    let _ = crossterm::cursor::Hide.write_ansi(&mut s);
    s
}

/// `crossterm::cursor::Show` is `ESC [ ?25 h`.
#[verifier::external_body]
pub(crate) fn show_cursor() -> (s: String)
    ensures
        s@ == "\x1b[?25h"@,
{
    let mut s = String::new();
    let _ = crossterm::cursor::Show.write_ansi(&mut s);
    s
}

/// `crossterm::terminal::EnterAlternateScreen` is `ESC [ ?1049 h`.
#[verifier::external_body]
pub(crate) fn enter_alternate_screen() -> (s: String)
    ensures
        s@ == "\x1b[?1049h"@,
{
    let mut s = String::new();
    let _ = crossterm::terminal::EnterAlternateScreen.write_ansi(&mut s);
    s
}

/// `crossterm::terminal::LeaveAlternateScreen` is `ESC [ ?1049 l`.
#[verifier::external_body]
pub(crate) fn leave_alternate_screen() -> (s: String)
    ensures
        s@ == "\x1b[?1049l"@,
{
    let mut s = String::new();
    let _ = crossterm::terminal::LeaveAlternateScreen.write_ansi(&mut s);
    s
}

/// The cursor is moved by ECMA-48's cursor position, which counts rows and columns from 1,
/// the row first.
pub proof fn law_move_is_a_control_sequence(x: u16, y: u16)
    ensures
        text::bytes_of(move_text(x as int, y as int)) == crate::renderer::control(
            seq![y as nat + 1, x as nat + 1],
            'H',
        ),
{
    reveal_strlit("\x1b[");
    reveal_strlit(";");
    reveal_strlit("H");
    let at = seq![y as nat + 1, x as nat + 1];
    reveal_with_fuel(crate::renderer::separated, 2);
    assert(at.drop_last() =~= seq![y as nat + 1]);
    assert(move_text(x as int, y as int) =~= "\x1b["@ + crate::renderer::separated(at) + seq!['H']);
}

} // verus!
