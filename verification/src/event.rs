//! Input events: keys, mouse actions, commands and broadcasts.
use vstd::prelude::*;
use crate::geometry::Point;

verus! {

/// What kind of event an [`Event`] carries.
#[derive(Clone, Copy, Debug, PartialEq, Eq, Structural)]
pub enum EventType {
    Nothing,
    Keyboard,
    MouseDown,
    MouseUp,
    MouseMove,
    MouseWheelUp,
    MouseWheelDown,
    Command,
    Broadcast,
}

pub const KB_ENTER: u16 = 0x1C0D;
pub const KB_ESC: u16 = 0x011B;
pub const KB_TAB: u16 = 0x0F09;
pub const KB_BACKSPACE: u16 = 0x0E08;
pub const KB_DEL: u16 = 0x5300;
pub const KB_UP: u16 = 0x4800;
pub const KB_DOWN: u16 = 0x5000;
pub const KB_LEFT: u16 = 0x4B00;
pub const KB_RIGHT: u16 = 0x4D00;
pub const KB_PGUP: u16 = 0x4900;
pub const KB_PGDN: u16 = 0x5100;
pub const KB_HOME: u16 = 0x4700;
pub const KB_END: u16 = 0x4F00;
pub const KB_F1: u16 = 0x3B00;
pub const KB_F4: u16 = 0x3E00;
pub const KB_SPACE: u16 = 0x0020;
pub const KB_SHIFT_TAB: u16 = 0x0F00;
pub const KB_ALT_A: u16 = 0x1E00;
pub const KB_ALT_B: u16 = 0x3000;
pub const KB_ALT_C: u16 = 0x2E00;
pub const KB_ALT_D: u16 = 0x2000;
pub const KB_ALT_E: u16 = 0x1200;
pub const KB_ALT_F: u16 = 0x2100;
pub const KB_ALT_G: u16 = 0x2200;
pub const KB_ALT_H: u16 = 0x2300;
pub const KB_ALT_I: u16 = 0x1700;
pub const KB_ALT_J: u16 = 0x2400;
pub const KB_ALT_K: u16 = 0x2500;
pub const KB_ALT_L: u16 = 0x2600;
pub const KB_ALT_M: u16 = 0x3200;
pub const KB_ALT_N: u16 = 0x3100;
pub const KB_ALT_O: u16 = 0x1800;
pub const KB_ALT_P: u16 = 0x1900;
pub const KB_ALT_Q: u16 = 0x1000;
pub const KB_ALT_R: u16 = 0x1300;
pub const KB_ALT_S: u16 = 0x1F00;
pub const KB_ALT_T: u16 = 0x1400;
pub const KB_ALT_U: u16 = 0x1600;
pub const KB_ALT_V: u16 = 0x2F00;
pub const KB_ALT_W: u16 = 0x1100;
pub const KB_ALT_X: u16 = 0x2D00;
pub const KB_ALT_Y: u16 = 0x1500;
pub const KB_ALT_Z: u16 = 0x2C00;

/// The key code of Alt and the upper-case letter `c`, for `A` to `Z`.
pub open spec fn spec_alt_code(c: char) -> Option<u16> {
    if c == 'A' { Some(KB_ALT_A) } else if c == 'B' { Some(KB_ALT_B) } else if c == 'C' { Some(KB_ALT_C) }
    else if c == 'D' { Some(KB_ALT_D) } else if c == 'E' { Some(KB_ALT_E) } else if c == 'F' { Some(KB_ALT_F) }
    else if c == 'G' { Some(KB_ALT_G) } else if c == 'H' { Some(KB_ALT_H) } else if c == 'I' { Some(KB_ALT_I) }
    else if c == 'J' { Some(KB_ALT_J) } else if c == 'K' { Some(KB_ALT_K) } else if c == 'L' { Some(KB_ALT_L) }
    else if c == 'M' { Some(KB_ALT_M) } else if c == 'N' { Some(KB_ALT_N) } else if c == 'O' { Some(KB_ALT_O) }
    else if c == 'P' { Some(KB_ALT_P) } else if c == 'Q' { Some(KB_ALT_Q) } else if c == 'R' { Some(KB_ALT_R) }
    else if c == 'S' { Some(KB_ALT_S) } else if c == 'T' { Some(KB_ALT_T) } else if c == 'U' { Some(KB_ALT_U) }
    else if c == 'V' { Some(KB_ALT_V) } else if c == 'W' { Some(KB_ALT_W) } else if c == 'X' { Some(KB_ALT_X) }
    else if c == 'Y' { Some(KB_ALT_Y) } else if c == 'Z' { Some(KB_ALT_Z) } else { None }
}

/// The key code of Alt and the upper-case letter `c`, for `A` to `Z`.
pub fn alt_code(c: char) -> (r: Option<u16>)
    ensures
        r == spec_alt_code(c),
{
    if c == 'A' { Some(KB_ALT_A) } else if c == 'B' { Some(KB_ALT_B) } else if c == 'C' { Some(KB_ALT_C) }
    else if c == 'D' { Some(KB_ALT_D) } else if c == 'E' { Some(KB_ALT_E) } else if c == 'F' { Some(KB_ALT_F) }
    else if c == 'G' { Some(KB_ALT_G) } else if c == 'H' { Some(KB_ALT_H) } else if c == 'I' { Some(KB_ALT_I) }
    else if c == 'J' { Some(KB_ALT_J) } else if c == 'K' { Some(KB_ALT_K) } else if c == 'L' { Some(KB_ALT_L) }
    else if c == 'M' { Some(KB_ALT_M) } else if c == 'N' { Some(KB_ALT_N) } else if c == 'O' { Some(KB_ALT_O) }
    else if c == 'P' { Some(KB_ALT_P) } else if c == 'Q' { Some(KB_ALT_Q) } else if c == 'R' { Some(KB_ALT_R) }
    else if c == 'S' { Some(KB_ALT_S) } else if c == 'T' { Some(KB_ALT_T) } else if c == 'U' { Some(KB_ALT_U) }
    else if c == 'V' { Some(KB_ALT_V) } else if c == 'W' { Some(KB_ALT_W) } else if c == 'X' { Some(KB_ALT_X) }
    else if c == 'Y' { Some(KB_ALT_Y) } else if c == 'Z' { Some(KB_ALT_Z) } else { None }
}

/// Shift held while the key or button was pressed.
pub const KM_SHIFT: u8 = 0b0000_0001;
/// Control held while the key or button was pressed.
pub const KM_CONTROL: u8 = 0b0000_0010;
/// Alt held while the key or button was pressed.
pub const KM_ALT: u8 = 0b0000_0100;

/// The left mouse button in [`MouseEvent::buttons`].
pub const MB_LEFT_BUTTON: u8 = 0x01;
/// The right mouse button in [`MouseEvent::buttons`].
pub const MB_RIGHT_BUTTON: u8 = 0x02;

/// The mouse part of an event.
#[derive(Clone, Copy, Debug, PartialEq, Eq, Structural)]
pub struct MouseEvent {
    pub pos: Point,
    pub buttons: u8,
    pub double_click: bool,
}

/// One event, as delivered to a view's `handle_event`.
#[derive(Clone, Copy, Debug, PartialEq, Eq, Structural)]
pub struct Event {
    pub what: EventType,
    pub key_code: u16,
    /// Modifier bits, see `KM_SHIFT`, `KM_CONTROL` and `KM_ALT`.
    pub key_modifiers: u8,
    pub mouse: MouseEvent,
    pub command: u16,
    pub info: u16,
}

/// Whether the modifier bits hold every bit of `flag`.
pub open spec fn has_modifier(mods: u8, flag: u8) -> bool {
    mods & flag == flag
}

/// An event with nothing in it.
pub open spec fn spec_nothing() -> Event {
    Event {
        what: EventType::Nothing,
        key_code: 0,
        key_modifiers: 0,
        mouse: MouseEvent { pos: Point { x: 0, y: 0 }, buttons: 0, double_click: false },
        command: 0,
        info: 0,
    }
}

/// A command event for `cmd`.
pub open spec fn spec_command(cmd: u16) -> Event {
    Event { what: EventType::Command, command: cmd, ..spec_nothing() }
}

/// A broadcast event for `cmd` carrying `info`.
pub open spec fn spec_broadcast(cmd: u16, info: u16) -> Event {
    Event { what: EventType::Broadcast, command: cmd, info: info, ..spec_nothing() }
}

/// Whether the modifier bits say Alt was held.
pub fn modifiers_have(mods: u8, flag: u8) -> (b: bool)
    ensures
        b == has_modifier(mods, flag),
{
    mods & flag == flag
}

impl Event {
    pub fn nothing() -> (e: Event)
        ensures
            e == spec_nothing(),
    {
        Event {
            what: EventType::Nothing,
            key_code: 0,
            key_modifiers: 0,
            mouse: MouseEvent { pos: Point { x: 0, y: 0 }, buttons: 0, double_click: false },
            command: 0,
            info: 0,
        }
    }

    pub fn keyboard(key_code: u16) -> (e: Event)
        ensures
            e == (Event { what: EventType::Keyboard, key_code: key_code, ..spec_nothing() }),
    {
        let mut e = Event::nothing();
        e.what = EventType::Keyboard;
        e.key_code = key_code;
        e
    }

    pub fn command(cmd: u16) -> (e: Event)
        ensures
            e == spec_command(cmd),
    {
        let mut e = Event::nothing();
        e.what = EventType::Command;
        e.command = cmd;
        e
    }

    pub fn broadcast(cmd: u16) -> (e: Event)
        ensures
            e == spec_broadcast(cmd, 0),
    {
        let mut e = Event::nothing();
        e.what = EventType::Broadcast;
        e.command = cmd;
        e
    }

    pub fn broadcast_with_info(cmd: u16, info: u16) -> (e: Event)
        ensures
            e == spec_broadcast(cmd, info),
    {
        let mut e = Event::nothing();
        e.what = EventType::Broadcast;
        e.command = cmd;
        e.info = info;
        e
    }

    pub fn mouse(what: EventType, pos: Point, buttons: u8, double_click: bool) -> (e: Event)
        ensures
            e == (Event {
                what: what,
                mouse: MouseEvent { pos: pos, buttons: buttons, double_click: double_click },
                ..spec_nothing()
            }),
    {
        let mut e = Event::nothing();
        e.what = what;
        e.mouse = MouseEvent { pos, buttons, double_click };
        e
    }

    /// Mark the event handled: only its kind changes, to `Nothing`.
    pub fn clear(&mut self)
        ensures
            *final(self) == (Event { what: EventType::Nothing, ..*old(self) }),
    {
        self.what = EventType::Nothing;
    }

    /// Whether the left button is among the pressed buttons.
    pub fn left_button(&self) -> (b: bool)
        ensures
            b == (self.mouse.buttons & MB_LEFT_BUTTON != 0),
    {
        self.mouse.buttons & MB_LEFT_BUTTON != 0
    }
}

} // verus!
