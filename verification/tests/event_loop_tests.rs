use serial_console::event_loop::{Action, EventLoopState, SourceEvent};
use serial_console::keys::{KeyCode, KeyEvent, Modifiers};

#[test]
fn translatable_key_becomes_an_outbound_write() {
    let mut state = EventLoopState::new();
    let ev = SourceEvent::Key(KeyEvent::new(KeyCode::Char('a'), Modifiers::control_only()));
    match state.step(ev) {
        Action::Send(b) => assert_eq!(b.as_ref(), &[0x01][..]),
        _ => panic!("expected a write action"),
    }
    assert!(state.keyboard_open && state.serial_open);
}

#[test]
fn untranslatable_key_does_nothing() {
    let mut state = EventLoopState::new();
    let ev = SourceEvent::Key(KeyEvent::new(KeyCode::Function(5), Modifiers::none()));
    assert!(matches!(state.step(ev), Action::Nothing));
    assert!(state.keyboard_open && state.serial_open);
}

#[test]
fn frame_goes_verbatim_to_the_display() {
    let mut state = EventLoopState::new();
    match state.step(SourceEvent::Frame(String::from("hello\n"))) {
        Action::Display(d) => assert_eq!(d, "hello\n"),
        _ => panic!("expected a display action"),
    }
}

#[test]
fn decode_failure_is_fatal_for_the_serial_source() {
    let mut state = EventLoopState::new();
    assert!(matches!(
        state.step(SourceEvent::DecodeFailed),
        Action::ReportDecodeFailure
    ));
    assert!(!state.serial_open);
    assert!(state.keyboard_open);
    assert!(state.is_running());
}

#[test]
fn exhausted_sources_are_deregistered() {
    let mut state = EventLoopState::new();
    assert!(matches!(state.step(SourceEvent::SerialClosed), Action::Nothing));
    assert!(!state.serial_open);
    assert!(state.is_running());
    assert!(matches!(state.step(SourceEvent::KeyboardClosed), Action::Nothing));
    assert!(!state.keyboard_open);
    assert!(!state.is_running());
}

#[test]
fn key_input_error_is_recoverable() {
    let mut state = EventLoopState::new();
    assert!(matches!(
        state.step(SourceEvent::KeyInputError),
        Action::ReportKeyInputError
    ));
    assert!(state.keyboard_open && state.serial_open);
}

#[test]
fn write_failure_is_reported_but_does_not_stop_the_loop() {
    let mut state = EventLoopState::new();
    assert!(matches!(state.on_write_result(true), Action::Nothing));
    assert!(matches!(
        state.on_write_result(false),
        Action::ReportWriteFailure
    ));
    assert!(state.keyboard_open && state.serial_open);
    assert!(state.is_running());
}
