//! An interactive serial terminal core: a line-framing codec between raw
//! bytes and newline-terminated text frames, a keystroke-to-byte-sequence
//! translator, and the state machine of the event loop that multiplexes a
//! serial byte stream with keyboard input.

pub mod buffer;
pub mod codec;
pub mod event_loop;
pub mod keys;
