use vga_console::keyboard::{Key, KeyAction, Keyboard, SCANCODES, SCANCODES_UPPERCASE};

fn feed(keyboard: &mut Keyboard, scancodes: &[u8]) -> Vec<KeyAction> {
    scancodes.iter().map(|s| keyboard.print_scancode(*s)).collect()
}

#[test]
fn scancode_table() {
    assert_eq!(SCANCODES.len(), 85);
    assert_eq!(SCANCODES_UPPERCASE.len(), 85);
    assert_eq!(Keyboard::key(0), Key { character: 0, character_uppercase: 0 });
    assert_eq!(Keyboard::key(2), Key { character: b'1', character_uppercase: b'!' });
    assert_eq!(Keyboard::key(16), Key { character: b'q', character_uppercase: b'Q' });
    assert_eq!(Keyboard::key(28), Key { character: b'\n', character_uppercase: b'\n' });
    assert_eq!(Keyboard::key(40), Key { character: b'\'', character_uppercase: b'"' });
    assert_eq!(Keyboard::key(43), Key { character: b'\\', character_uppercase: b'|' });
    assert_eq!(Keyboard::key(57), Key { character: b' ', character_uppercase: b' ' });
    assert_eq!(Keyboard::key(84), Key { character: b'!', character_uppercase: b'!' });
    let lower: Vec<u8> = (16..=27).map(|s| Keyboard::key(s).character).collect();
    assert_eq!(lower, b"qwertyuiop[]");
    let upper: Vec<u8> = (30..=41).map(|s| Keyboard::key(s).character_uppercase).collect();
    assert_eq!(upper, b"ASDFGHJKL:\"~");
    let digits: Vec<u8> = (2..=13).map(|s| Keyboard::key(s).character).collect();
    assert_eq!(digits, b"1234567890-=");
    let bottom: Vec<u8> = (44..=53).map(|s| Keyboard::key(s).character).collect();
    assert_eq!(bottom, b"zxcvbnm,./");
}

#[test]
fn plain_keys_give_their_character() {
    let mut keyboard = Keyboard::new();
    assert_eq!(
        feed(&mut keyboard, &[35, 23, 57, 28]),
        vec![
            KeyAction::Input(b'h'),
            KeyAction::Input(b'i'),
            KeyAction::Input(b' '),
            KeyAction::Input(b'\n'),
        ]
    );
}

#[test]
fn releases_mean_nothing() {
    let mut keyboard = Keyboard::new();
    assert_eq!(
        feed(&mut keyboard, &[35 | 0x80, 0x80, 0xff, 42 | 0x80]),
        vec![KeyAction::Nothing; 4]
    );
    assert_eq!(keyboard.print_scancode(30), KeyAction::Input(b'a'));
}

#[test]
fn shift_holds_for_one_key() {
    let mut keyboard = Keyboard::new();
    assert_eq!(
        feed(&mut keyboard, &[42, 30, 30, 56, 3]),
        vec![
            KeyAction::Nothing,
            KeyAction::Input(b'A'),
            KeyAction::Input(b'a'),
            KeyAction::Nothing,
            KeyAction::Input(b'@'),
        ]
    );
}

#[test]
fn backspace_gives_its_control_byte() {
    let mut keyboard = Keyboard::new();
    assert_eq!(keyboard.print_scancode(14), KeyAction::Input(0x08));
    assert_eq!(feed(&mut keyboard, &[42, 14]), vec![KeyAction::Nothing, KeyAction::Input(0x08)]);
    // shift was not used up
    assert_eq!(keyboard.print_scancode(30), KeyAction::Input(b'A'));
}

#[test]
fn control_p_asks_for_the_banner() {
    let mut keyboard = Keyboard::new();
    assert_eq!(feed(&mut keyboard, &[29, 25]), vec![KeyAction::Nothing, KeyAction::Rainbow]);
    assert_eq!(keyboard.print_scancode(25), KeyAction::Input(b'p'));
    // with shift it is a capital letter, and control stays
    assert_eq!(
        feed(&mut keyboard, &[29, 42, 25, 25]),
        vec![
            KeyAction::Nothing,
            KeyAction::Nothing,
            KeyAction::Input(b'P'),
            KeyAction::Rainbow,
        ]
    );
}

#[test]
fn function_keys_select_a_screen() {
    let mut keyboard = Keyboard::new();
    for (i, scancode) in (59u8..=66).enumerate() {
        assert_eq!(keyboard.print_scancode(scancode), KeyAction::Display(i));
    }
    assert_eq!(keyboard.print_scancode(58), KeyAction::Input(b'!'));
    assert_eq!(keyboard.print_scancode(67), KeyAction::Input(b'!'));
}

#[test]
fn unknown_scancodes_are_reported() {
    let mut keyboard = Keyboard::new();
    assert_eq!(keyboard.print_scancode(85), KeyAction::Unhandled(85));
    assert_eq!(keyboard.print_scancode(0x7f), KeyAction::Unhandled(0x7f));
    assert_eq!(
        feed(&mut keyboard, &[0xe0, 0x1c]),
        vec![KeyAction::Nothing, KeyAction::UnhandledExtended(0x1c)]
    );
}

#[test]
fn extended_keys_give_control_bytes() {
    let mut keyboard = Keyboard::new();
    let pairs = [
        (0x48u8, 0x18u8),
        (0x49, 0x1e),
        (0x4b, 0x1b),
        (0x4d, 0x1a),
        (0x50, 0x19),
        (0x51, 0x1f),
        (0x53, 0x7f),
    ];
    for (scancode, byte) in pairs {
        assert_eq!(
            feed(&mut keyboard, &[0xe0, scancode]),
            vec![KeyAction::Nothing, KeyAction::Input(byte)]
        );
        // the extension holds for one scancode
        assert_ne!(keyboard.print_scancode(scancode), KeyAction::Input(byte));
    }
    assert_eq!(
        feed(&mut keyboard, &[0xe0, 0x48 | 0x80, 0x48]),
        vec![KeyAction::Nothing, KeyAction::Nothing, KeyAction::Input(b'8')]
    );
}
