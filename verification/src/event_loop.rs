//! The event loop's decision core: a state machine that multiplexes two
//! inbound sources — decoded frames from the serial connection and key
//! events from the terminal — and dispatches each readiness to the
//! appropriate sink. The state tracks which sources are still live, so that
//! an exhausted or failed source is permanently deregistered rather than
//! re-polled.

use vstd::prelude::*;
use crate::buffer::bytes_view;
use crate::keys::{KeyEvent, key_bytes, handle_key_press};

verus! {

/// One readiness of one source, as handed to the loop by its driver.
pub enum SourceEvent {
    /// The terminal delivered a keystroke.
    Key(KeyEvent),
    /// The terminal's event stream reported a failure; recoverable.
    KeyInputError,
    /// The terminal's event stream is exhausted: no further keystrokes will
    /// ever arrive.
    KeyboardClosed,
    /// The serial read path delivered one decoded frame.
    Frame(String),
    /// The serial read path failed to decode; fatal for that connection.
    DecodeFailed,
    /// The serial read path is exhausted: no further frames will ever
    /// arrive.
    SerialClosed,
}

/// What the loop's driver must do with one dispatched event.
pub enum Action {
    /// Write these bytes to the outbound serial half.
    Send(bytes::Bytes),
    /// Write this frame verbatim to the display sink; it already carries
    /// its terminator.
    Display(String),
    /// Report a keyboard input failure to the operator; the session goes
    /// on.
    ReportKeyInputError,
    /// Report the fatal decode failure to the operator; the serial read
    /// path is closed.
    ReportDecodeFailure,
    /// Report a failed outbound write to the operator; the session goes on.
    ReportWriteFailure,
    /// Nothing to do.
    Nothing,
}

/// The loop's state: which of the two sources may still produce events.
#[derive(Clone, Copy, Debug, PartialEq, Eq, Structural)]
pub struct EventLoopState {
    pub keyboard_open: bool,
    pub serial_open: bool,
}

/// True when the event comes from the keyboard source; otherwise it comes
/// from the serial source.
pub open spec fn from_keyboard(ev: SourceEvent) -> bool {
    match ev {
        SourceEvent::Key(_) => true,
        SourceEvent::KeyInputError => true,
        SourceEvent::KeyboardClosed => true,
        SourceEvent::Frame(_) => false,
        SourceEvent::DecodeFailed => false,
        SourceEvent::SerialClosed => false,
    }
}

/// The state after dispatching `ev` in state `s`: an exhausted source, and
/// the serial source after a fatal decode failure, are closed; nothing else
/// changes.
pub open spec fn next_state(s: EventLoopState, ev: SourceEvent) -> EventLoopState {
    match ev {
        SourceEvent::KeyboardClosed => (EventLoopState { keyboard_open: false, ..s }),
        SourceEvent::DecodeFailed => (EventLoopState { serial_open: false, ..s }),
        SourceEvent::SerialClosed => (EventLoopState { serial_open: false, ..s }),
        _ => s,
    }
}

impl EventLoopState {
    /// A fresh loop with both sources live.
    pub fn new() -> (s: EventLoopState)
        ensures
            s.keyboard_open && s.serial_open,
    {
        EventLoopState { keyboard_open: true, serial_open: true }
    }

    /// True when the source the event comes from is still live, so that the
    /// event may be dispatched at all.
    pub open spec fn source_open(&self, ev: SourceEvent) -> bool {
        if from_keyboard(ev) {
            self.keyboard_open
        } else {
            self.serial_open
        }
    }

    /// Dispatches one event: a translatable keystroke becomes an outbound
    /// write, a frame goes verbatim to the display, failures are reported —
    /// the fatal decode failure closing the serial source — and an
    /// exhausted source is deregistered. Only a live source may be
    /// dispatched.
    pub fn step(&mut self, ev: SourceEvent) -> (a: Action)
        requires
            old(self).source_open(ev),
        ensures
            *final(self) == next_state(*old(self), ev),
            (match ev {
                SourceEvent::Key(k) => match key_bytes(k.code, k.modifiers) {
                    Some(s) => a matches Action::Send(b) && bytes_view(b) == s,
                    None => a matches Action::Nothing,
                },
                SourceEvent::KeyInputError => a matches Action::ReportKeyInputError,
                SourceEvent::KeyboardClosed => a matches Action::Nothing,
                SourceEvent::Frame(f) => a matches Action::Display(d) && d == f,
                SourceEvent::DecodeFailed => a matches Action::ReportDecodeFailure,
                SourceEvent::SerialClosed => a matches Action::Nothing,
            }),
    {
        match ev {
            SourceEvent::Key(k) => match handle_key_press(k) {
                Some(b) => Action::Send(b),
                None => Action::Nothing,
            },
            SourceEvent::KeyInputError => Action::ReportKeyInputError,
            SourceEvent::KeyboardClosed => {
                self.keyboard_open = false;
                Action::Nothing
            },
            SourceEvent::Frame(f) => Action::Display(f),
            SourceEvent::DecodeFailed => {
                self.serial_open = false;
                Action::ReportDecodeFailure
            },
            SourceEvent::SerialClosed => {
                self.serial_open = false;
                Action::Nothing
            },
        }
    }

    /// The outcome of one outbound write: a failure is reported but never
    /// stops the loop, so the state is unchanged either way.
    pub fn on_write_result(&mut self, ok: bool) -> (a: Action)
        ensures
            *final(self) == *old(self),
            ok ==> a matches Action::Nothing,
            !ok ==> a matches Action::ReportWriteFailure,
    {
        if ok {
            Action::Nothing
        } else {
            Action::ReportWriteFailure
        }
    }

    /// True while at least one source is still live; when both are gone the
    /// loop has nothing left to wait on.
    pub fn is_running(&self) -> (r: bool)
        ensures
            r == (self.keyboard_open || self.serial_open),
    {
        self.keyboard_open || self.serial_open
    }
}

/// Law: once the serial source has been closed — by exhaustion or by a
/// fatal decode failure — no event it could produce is ever dispatched
/// again, and no dispatch reopens it.
pub proof fn lemma_serial_closed_stays_silent(s: EventLoopState, ev: SourceEvent)
    requires
        !s.serial_open,
        s.source_open(ev),
    ensures
        from_keyboard(ev),
        !next_state(s, ev).serial_open,
{
}

/// Law: once the keyboard source has signalled exhaustion and been closed,
/// no event it could produce is ever dispatched again, and no dispatch
/// reopens it.
pub proof fn lemma_keyboard_closed_stays_silent(s: EventLoopState, ev: SourceEvent)
    requires
        !s.keyboard_open,
        s.source_open(ev),
    ensures
        !from_keyboard(ev),
        !next_state(s, ev).keyboard_open,
{
}

} // verus!
