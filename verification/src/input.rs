//! Which key is which Game Boy button.

use crate::keys;
use crate::keys::Key;
use vstd::prelude::*;

verus! {

/// A button of the Game Boy.
#[derive(Clone, Copy, PartialEq, Eq, Debug, Structural)]
pub enum Button {
    A,
    B,
    Start,
    Select,
    Up,
    Down,
    Left,
    Right,
}

/// Button count and index mapping (faster than a map for 8 buttons).
pub const BUTTON_COUNT: usize = 8;

pub open spec fn index_of(button: Button) -> int {
    match button {
        Button::A => 0,
        Button::B => 1,
        Button::Start => 2,
        Button::Select => 3,
        Button::Up => 4,
        Button::Down => 5,
        Button::Left => 6,
        Button::Right => 7,
    }
}

pub fn button_index(button: Button) -> (i: usize)
    ensures
        i == index_of(button),
        i < BUTTON_COUNT,
{
    match button {
        Button::A => 0,
        Button::B => 1,
        Button::Start => 2,
        Button::Select => 3,
        Button::Up => 4,
        Button::Down => 5,
        Button::Left => 6,
        Button::Right => 7,
    }
}

/// The button with an index.
pub open spec fn button_of(i: int) -> Button {
    if i == 0 {
        Button::A
    } else if i == 1 {
        Button::B
    } else if i == 2 {
        Button::Start
    } else if i == 3 {
        Button::Select
    } else if i == 4 {
        Button::Up
    } else if i == 5 {
        Button::Down
    } else if i == 6 {
        Button::Left
    } else {
        Button::Right
    }
}

pub fn button_at(i: usize) -> (r: Button)
    requires
        i < BUTTON_COUNT,
    ensures
        r == button_of(i as int),
        index_of(r) == i,
{
    if i == 0 {
        Button::A
    } else if i == 1 {
        Button::B
    } else if i == 2 {
        Button::Start
    } else if i == 3 {
        Button::Select
    } else if i == 4 {
        Button::Up
    } else if i == 5 {
        Button::Down
    } else if i == 6 {
        Button::Left
    } else {
        Button::Right
    }
}

/// The button of a decoded key.
pub open spec fn button_of_key(key: Key) -> Option<Button> {
    match key {
        Key::Up => Some(Button::Up),
        Key::Down => Some(Button::Down),
        Key::Left => Some(Button::Left),
        Key::Right => Some(Button::Right),
        Key::Enter => Some(Button::Start),
        Key::Char(c) => if c == 'z' || c == 'Z' {
            Some(Button::A)
        } else if c == 'x' || c == 'X' {
            Some(Button::B)
        } else if c == ' ' {
            Some(Button::Select)
        } else {
            None
        },
        _ => None,
    }
}

/// Map a decoded key to a Game Boy button.
pub fn map_key_to_button(key: Key) -> (r: Option<Button>)
    ensures
        r == button_of_key(key),
{
    match key {
        Key::Up => Some(Button::Up),
        Key::Down => Some(Button::Down),
        Key::Left => Some(Button::Left),
        Key::Right => Some(Button::Right),
        Key::Enter => Some(Button::Start),
        Key::Char(c) => {
            if c == 'z' || c == 'Z' {
                Some(Button::A)
            } else if c == 'x' || c == 'X' {
                Some(Button::B)
            } else if c == ' ' {
                Some(Button::Select)
            } else {
                None
            }
        },
        _ => None,
    }
}

// evdev key codes (Linux input-event-codes) carried by CTerm physical key
// reports: layout-independent physical positions. The quit keys aren't GB
// buttons, so they're matched directly in the game loop.
pub const EVDEV_ESC: u16 = 1;

pub const EVDEV_Q: u16 = 16;

pub const EVDEV_ENTER: u16 = 28;

pub const EVDEV_Z: u16 = 44;

pub const EVDEV_X: u16 = 45;

pub const EVDEV_SPACE: u16 = 57;

pub const EVDEV_UP: u16 = 103;

pub const EVDEV_LEFT: u16 = 105;

pub const EVDEV_RIGHT: u16 = 106;

pub const EVDEV_DOWN: u16 = 108;

/// The button at a physical key position.
pub open spec fn button_of_code(code: u16) -> Option<Button> {
    if code == EVDEV_UP {
        Some(Button::Up)
    } else if code == EVDEV_DOWN {
        Some(Button::Down)
    } else if code == EVDEV_LEFT {
        Some(Button::Left)
    } else if code == EVDEV_RIGHT {
        Some(Button::Right)
    } else if code == EVDEV_Z {
        Some(Button::A)
    } else if code == EVDEV_X {
        Some(Button::B)
    } else if code == EVDEV_ENTER {
        Some(Button::Start)
    } else if code == EVDEV_SPACE {
        Some(Button::Select)
    } else {
        None
    }
}

/// Map a CTerm physical-key evdev code to a Game Boy button: same layout as the
/// translated mapping (Z=A, X=B, Enter=Start, Space=Select, arrows=D-pad).
pub fn evdev_to_button(code: u16) -> (r: Option<Button>)
    ensures
        r == button_of_code(code),
{
    if code == EVDEV_UP {
        Some(Button::Up)
    } else if code == EVDEV_DOWN {
        Some(Button::Down)
    } else if code == EVDEV_LEFT {
        Some(Button::Left)
    } else if code == EVDEV_RIGHT {
        Some(Button::Right)
    } else if code == EVDEV_Z {
        Some(Button::A)
    } else if code == EVDEV_X {
        Some(Button::B)
    } else if code == EVDEV_ENTER {
        Some(Button::Start)
    } else if code == EVDEV_SPACE {
        Some(Button::Select)
    } else {
        None
    }
}

/// The key that a character of a keyboard event types.
pub open spec fn key_typed(keysym: char) -> Key {
    if keysym == '\r' {
        Key::Enter
    } else if keysym == '\x1b' {
        Key::Esc
    } else {
        Key::Char(keysym)
    }
}

/// Both input paths have one layout: a key that the keyboard protocols report as an
/// edge is the button that its translated key is.
pub proof fn law_layouts_agree(keysym: char)
    ensures
        keys::evdev_of(keysym as nat) matches Some(code) ==> button_of_code(code) == button_of_key(
            key_typed(keysym),
        ),
        button_of_code(keys::arrow_code('A')) == button_of_key(Key::Up),
        button_of_code(keys::arrow_code('B')) == button_of_key(Key::Down),
        button_of_code(keys::arrow_code('C')) == button_of_key(Key::Right),
        button_of_code(keys::arrow_code('D')) == button_of_key(Key::Left),
{
}

/// Every button has an index of its own, and can be reached on both input paths.
pub proof fn law_buttons_are_indexed(button: Button)
    ensures
        0 <= index_of(button) < BUTTON_COUNT,
        button_of(index_of(button)) == button,
        exists|key: Key| #[trigger] button_of_key(key) == Some(button),
        exists|code: u16| #[trigger] button_of_code(code) == Some(button),
{
    let (key, code) = match button {
        Button::A => (Key::Char('z'), EVDEV_Z),
        Button::B => (Key::Char('x'), EVDEV_X),
        Button::Start => (Key::Enter, EVDEV_ENTER),
        Button::Select => (Key::Char(' '), EVDEV_SPACE),
        Button::Up => (Key::Up, EVDEV_UP),
        Button::Down => (Key::Down, EVDEV_DOWN),
        Button::Left => (Key::Left, EVDEV_LEFT),
        Button::Right => (Key::Right, EVDEV_RIGHT),
    };
    assert(button_of_key(key) == Some(button));
    assert(button_of_code(code) == Some(button));
}

/// The controls: Z is A and X is B (in either case), Enter is Start, Space is Select,
/// the arrows are the D-pad, and no other key is a button.
pub proof fn law_controls(key: Key)
    ensures
        button_of_key(key) == Some(Button::A) <==> key == Key::Char('z') || key == Key::Char('Z'),
        button_of_key(key) == Some(Button::B) <==> key == Key::Char('x') || key == Key::Char('X'),
        button_of_key(key) == Some(Button::Start) <==> key == Key::Enter,
        button_of_key(key) == Some(Button::Select) <==> key == Key::Char(' '),
        button_of_key(key) == Some(Button::Up) <==> key == Key::Up,
        button_of_key(key) == Some(Button::Down) <==> key == Key::Down,
        button_of_key(key) == Some(Button::Left) <==> key == Key::Left,
        button_of_key(key) == Some(Button::Right) <==> key == Key::Right,
{
}

/// The same controls by the position of the key (evdev codes, which are those of
/// Linux's input events).
pub proof fn law_positions(code: u16)
    ensures
        button_of_code(code) == Some(Button::A) <==> code == 44,
        button_of_code(code) == Some(Button::B) <==> code == 45,
        button_of_code(code) == Some(Button::Start) <==> code == 28,
        button_of_code(code) == Some(Button::Select) <==> code == 57,
        button_of_code(code) == Some(Button::Up) <==> code == 103,
        button_of_code(code) == Some(Button::Down) <==> code == 108,
        button_of_code(code) == Some(Button::Left) <==> code == 105,
        button_of_code(code) == Some(Button::Right) <==> code == 106,
        EVDEV_ESC == 1 && EVDEV_Q == 16,
{
}

} // verus!
