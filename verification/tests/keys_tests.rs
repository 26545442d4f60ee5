use serial_console::keys::{handle_key_press, KeyCode, KeyEvent, Modifiers};

fn press(code: KeyCode, modifiers: Modifiers) -> Option<Vec<u8>> {
    handle_key_press(KeyEvent::new(code, modifiers)).map(|b| b.as_ref().to_vec())
}

#[test]
fn control_characters_derive_control_codes() {
    let ctrl = Modifiers::control_only();
    assert_eq!(press(KeyCode::Char('a'), ctrl), Some(vec![0x01]));
    assert_eq!(press(KeyCode::Char(' '), ctrl), Some(vec![0x00]));
    assert_eq!(press(KeyCode::Char('4'), ctrl), Some(vec![0x1c]));
    assert_eq!(press(KeyCode::Char('z'), ctrl), Some(vec![0x1a]));
    assert_eq!(press(KeyCode::Char('7'), ctrl), Some(vec![0x1f]));
}

#[test]
fn control_with_uncovered_character_falls_through_verbatim() {
    let ctrl = Modifiers::control_only();
    assert_eq!(press(KeyCode::Char('A'), ctrl), Some(vec![b'A']));
    assert_eq!(press(KeyCode::Char('8'), ctrl), Some(vec![b'8']));
}

#[test]
fn plain_characters_are_sent_verbatim_utf8() {
    let none = Modifiers::none();
    assert_eq!(press(KeyCode::Char('x'), none), Some(vec![b'x']));
    assert_eq!(press(KeyCode::Char('\u{e9}'), none), Some(vec![0xc3, 0xa9]));
    assert_eq!(press(KeyCode::Char('\u{2603}'), none), Some(vec![0xe2, 0x98, 0x83]));
    assert_eq!(
        press(KeyCode::Char('\u{1f680}'), none),
        Some(vec![0xf0, 0x9f, 0x9a, 0x80])
    );
}

#[test]
fn special_keys_map_to_their_sequences() {
    let none = Modifiers::none();
    assert_eq!(press(KeyCode::Backspace, none), Some(vec![0x08]));
    assert_eq!(press(KeyCode::Enter, none), Some(vec![0x0d]));
    assert_eq!(press(KeyCode::Tab, none), Some(vec![0x09]));
    assert_eq!(press(KeyCode::Esc, none), Some(vec![0x1b]));
    assert_eq!(press(KeyCode::Up, none), Some(b"\x1b[A".to_vec()));
    assert_eq!(press(KeyCode::Down, none), Some(b"\x1b[B".to_vec()));
    assert_eq!(press(KeyCode::Right, none), Some(b"\x1b[C".to_vec()));
    assert_eq!(press(KeyCode::Left, none), Some(b"\x1b[D".to_vec()));
    assert_eq!(press(KeyCode::Home, none), Some(b"\x1b[H".to_vec()));
    assert_eq!(press(KeyCode::End, none), Some(b"\x1b[F".to_vec()));
    assert_eq!(press(KeyCode::Insert, none), Some(b"\x1b[2~".to_vec()));
    assert_eq!(press(KeyCode::Delete, none), Some(b"\x1b[3~".to_vec()));
}

#[test]
fn special_keys_ignore_modifiers() {
    let ctrl = Modifiers::control_only();
    assert_eq!(press(KeyCode::Enter, ctrl), Some(vec![0x0d]));
    assert_eq!(press(KeyCode::Up, ctrl), Some(b"\x1b[A".to_vec()));
}

#[test]
fn unmapped_keys_yield_nothing() {
    let none = Modifiers::none();
    assert_eq!(press(KeyCode::Function(1), none), None);
    assert_eq!(press(KeyCode::Function(12), none), None);
    assert_eq!(press(KeyCode::Other, none), None);
    assert_eq!(press(KeyCode::Other, Modifiers::control_only()), None);
}
