//! The keyboard decoder: from scancodes to the bytes and commands that the
//! console takes.

use vstd::prelude::*;

verus! {

/// Number of scancodes that have a key.
pub const SCANCODE_COUNT: usize = 85;

/// Character of each scancode. Keys without a character have `!`.
pub const SCANCODES: [u8; 85] = [
    0, 0x21, 0x31, 0x32, 0x33, 0x34, 0x35, 0x36, 0x37, 0x38,
    0x39, 0x30, 0x2d, 0x3d, 0x21, 0x09, 0x71, 0x77, 0x65, 0x72,
    0x74, 0x79, 0x75, 0x69, 0x6f, 0x70, 0x5b, 0x5d, 0x0a, 0x21,
    0x61, 0x73, 0x64, 0x66, 0x67, 0x68, 0x6a, 0x6b, 0x6c, 0x3b,
    0x27, 0x60, 0x21, 0x5c, 0x7a, 0x78, 0x63, 0x76, 0x62, 0x6e,
    0x6d, 0x2c, 0x2e, 0x2f, 0x21, 0x2a, 0x21, 0x20, 0x21, 0x21,
    0x21, 0x21, 0x21, 0x21, 0x21, 0x21, 0x21, 0x21, 0x21, 0x21,
    0x21, 0x37, 0x38, 0x39, 0x2d, 0x34, 0x35, 0x36, 0x2b, 0x31,
    0x32, 0x33, 0x30, 0x2e, 0x21,
];

/// Character of each scancode while shift is held.
pub const SCANCODES_UPPERCASE: [u8; 85] = [
    0, 0x21, 0x21, 0x40, 0x23, 0x24, 0x25, 0x5e, 0x26, 0x2a,
    0x28, 0x29, 0x5f, 0x2b, 0x21, 0x09, 0x51, 0x57, 0x45, 0x52,
    0x54, 0x59, 0x55, 0x49, 0x4f, 0x50, 0x7b, 0x7d, 0x0a, 0x21,
    0x41, 0x53, 0x44, 0x46, 0x47, 0x48, 0x4a, 0x4b, 0x4c, 0x3a,
    0x22, 0x7e, 0x21, 0x7c, 0x5a, 0x58, 0x43, 0x56, 0x42, 0x4e,
    0x4d, 0x3c, 0x3e, 0x3f, 0x21, 0x2a, 0x21, 0x20, 0x21, 0x21,
    0x21, 0x21, 0x21, 0x21, 0x21, 0x21, 0x21, 0x21, 0x21, 0x21,
    0x21, 0x37, 0x38, 0x39, 0x2d, 0x34, 0x35, 0x36, 0x2b, 0x31,
    0x32, 0x33, 0x30, 0x2e, 0x21,
];

/// Byte that stands for the backspace key.
pub const BACKSPACE: u8 = 0x08;

/// Byte that stands for the delete key.
pub const DELETE: u8 = 0x7f;

/// Byte that stands for the up arrow.
pub const ARROW_UP: u8 = 0x18;

/// Byte that stands for the down arrow.
pub const ARROW_DOWN: u8 = 0x19;

/// Byte that stands for the right arrow.
pub const ARROW_RIGHT: u8 = 0x1a;

/// Byte that stands for the left arrow.
pub const ARROW_LEFT: u8 = 0x1b;

/// Byte that stands for the page-up key.
pub const PAGE_UP: u8 = 0x1e;

/// Byte that stands for the page-down key.
pub const PAGE_DOWN: u8 = 0x1f;

/// The two characters of a key.
#[derive(Debug, Copy, Clone, PartialEq, Eq, Structural)]
pub struct Key {
    pub character: u8,
    pub character_uppercase: u8,
}

/// What the console is to do for a scancode.
#[derive(Debug, Copy, Clone, PartialEq, Eq, Structural)]
pub enum KeyAction {
    /// Nothing.
    Nothing,
    /// Feed this byte to the shown screen.
    Input(u8),
    /// Print the banner.
    Rainbow,
    /// Show the screen of this index.
    Display(usize),
    /// Report a scancode that has no key.
    Unhandled(u8),
    /// Report a scancode that has no key after the extension byte.
    UnhandledExtended(u8),
}

/// The modifiers that the decoder keeps between scancodes.
pub struct KeyboardView {
    pub shift: bool,
    pub extended: bool,
    pub ctrl: bool,
}

/// The key of `scancode`, which must be below `SCANCODE_COUNT`.
pub open spec fn key_of(scancode: u8) -> Key {
    Key {
        character: SCANCODES[scancode as int],
        character_uppercase: SCANCODES_UPPERCASE[scancode as int],
    }
}

/// What a pressed key means after the extension byte.
pub open spec fn extended_action(scancode: u8) -> KeyAction {
    if scancode == 0x48 {
        KeyAction::Input(ARROW_UP)
    } else if scancode == 0x49 {
        KeyAction::Input(PAGE_UP)
    } else if scancode == 0x4b {
        KeyAction::Input(ARROW_LEFT)
    } else if scancode == 0x4d {
        KeyAction::Input(ARROW_RIGHT)
    } else if scancode == 0x50 {
        KeyAction::Input(ARROW_DOWN)
    } else if scancode == 0x51 {
        KeyAction::Input(PAGE_DOWN)
    } else if scancode == 0x53 {
        KeyAction::Input(DELETE)
    } else {
        KeyAction::UnhandledExtended(scancode)
    }
}

/// The modifiers after `scancode`, and what the console is to do for it.
///
/// The byte 0xE0 announces an extended key. Shift and control are kept
/// from their press until the next key that uses them. Releases, which
/// have the high bit set, mean nothing. Of the plain keys, backspace gives
/// its control byte, control with `p` asks for the banner, the function
/// keys F1 to F8 select a screen, and any other key gives its character,
/// upper case after shift.
pub open spec fn key_event(k: KeyboardView, scancode: u8) -> (KeyboardView, KeyAction) {
    if !k.extended {
        if scancode == 0xE0 {
            (KeyboardView { extended: true, ..k }, KeyAction::Nothing)
        } else if scancode == 42 || scancode == 56 {
            (KeyboardView { shift: true, ..k }, KeyAction::Nothing)
        } else if scancode == 29 {
            (KeyboardView { ctrl: true, ..k }, KeyAction::Nothing)
        } else if scancode >= 0x80 {
            (k, KeyAction::Nothing)
        } else if scancode > 84 {
            (k, KeyAction::Unhandled(scancode))
        } else if scancode == 14 {
            (k, KeyAction::Input(BACKSPACE))
        } else if k.ctrl && !k.shift && scancode == 25 {
            (KeyboardView { ctrl: false, ..k }, KeyAction::Rainbow)
        } else if 59 <= scancode <= 66 {
            (k, KeyAction::Display((scancode - 59) as usize))
        } else if !k.shift {
            (k, KeyAction::Input(key_of(scancode).character))
        } else {
            (KeyboardView { shift: false, ..k }, KeyAction::Input(key_of(scancode).character_uppercase))
        }
    } else {
        (
            KeyboardView { extended: false, ..k },
            if scancode < 0x80 {
                extended_action(scancode)
            } else {
                KeyAction::Nothing
            },
        )
    }
}

#[derive(Debug)]
pub struct Keyboard {
    shift: bool,
    extended: bool,
    ctrl: bool,
}

impl Keyboard {
    pub closed spec fn view(&self) -> KeyboardView {
        KeyboardView { shift: self.shift, extended: self.extended, ctrl: self.ctrl }
    }

    pub fn new() -> (keyboard: Self)
        ensures
            !keyboard@.shift,
            !keyboard@.extended,
            !keyboard@.ctrl,
    {
        Self { shift: false, extended: false, ctrl: false }
    }

    /// The key of `scancode`.
    pub fn key(scancode: u8) -> (key: Key)
        requires
            scancode < SCANCODE_COUNT,
        ensures
            key == key_of(scancode),
    {
        Key {
            character: SCANCODES[scancode as usize],
            character_uppercase: SCANCODES_UPPERCASE[scancode as usize],
        }
    }

    /// Takes one scancode, as read from the keyboard's port, and says what
    /// the console is to do for it.
    pub fn print_scancode(&mut self, scancode: u8) -> (action: KeyAction)
        ensures
            (final(self)@, action) == key_event(old(self)@, scancode),
    {
        let is_pressed: bool = (scancode & 0x80) == 0;
        assert(((scancode & 0x80) == 0) == (scancode < 0x80)) by (bit_vector);
        if self.extended == false {
            if scancode == 0xE0 {
                self.extended = true;
                KeyAction::Nothing
            } else if scancode == 42 || scancode == 56 {
                self.shift = true;
                KeyAction::Nothing
            } else if scancode == 29 {
                self.ctrl = true;
                KeyAction::Nothing
            } else if is_pressed {
                if scancode > 84 {
                    KeyAction::Unhandled(scancode)
                } else if scancode == 14 {
                    KeyAction::Input(BACKSPACE)
                } else {
                    if self.ctrl == true && self.shift == false && scancode == 25 {
                        self.ctrl = false;
                        KeyAction::Rainbow
                    } else if 59 <= scancode && scancode <= 66 {
                        let value = scancode - 59;
                        KeyAction::Display(value as usize)
                    } else if self.shift == false {
                        KeyAction::Input(Self::key(scancode).character)
                    } else {
                        self.shift = false;
                        KeyAction::Input(Self::key(scancode).character_uppercase)
                    }
                }
            } else {
                KeyAction::Nothing
            }
        } else {
            self.extended = false;
            if is_pressed {
                if scancode == 0x48 {
                    KeyAction::Input(ARROW_UP)
                } else if scancode == 0x49 {
                    KeyAction::Input(PAGE_UP)
                } else if scancode == 0x4b {
                    KeyAction::Input(ARROW_LEFT)
                } else if scancode == 0x4d {
                    KeyAction::Input(ARROW_RIGHT)
                } else if scancode == 0x50 {
                    KeyAction::Input(ARROW_DOWN)
                } else if scancode == 0x51 {
                    KeyAction::Input(PAGE_DOWN)
                } else if scancode == 0x53 {
                    KeyAction::Input(DELETE)
                } else {
                    KeyAction::UnhandledExtended(scancode)
                }
            } else {
                KeyAction::Nothing
            }
        }
    }
}

} // verus!
