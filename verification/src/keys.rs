//! The key translator: a pure, deterministic mapping from a keystroke — a
//! key code with a set of modifier flags — to the byte sequence a remote
//! terminal expects, or to nothing when the key has no mapping.

use vstd::prelude::*;
use crate::buffer::{bytes_copy_from_slice, bytes_view};
use vstd::utf8::encode_scalar;

verus! {

/// A keyboard key, as a closed set of variants. Keys the translator does
/// not map (function keys, other special keys) fall under `Function` and
/// `Other`.
#[derive(Clone, Copy, Debug, PartialEq, Eq, Structural)]
pub enum KeyCode {
    Backspace,
    Enter,
    Left,
    Right,
    Home,
    End,
    Up,
    Down,
    Tab,
    Delete,
    Insert,
    Esc,
    Char(char),
    Function(u8),
    Other,
}

/// The modifier flags of a keystroke, as explicit capabilities rather than
/// a raw bitmask.
#[derive(Clone, Copy, Debug, PartialEq, Eq, Structural)]
pub struct Modifiers {
    pub shift: bool,
    pub control: bool,
    pub alt: bool,
}

impl Modifiers {
    /// No modifier held.
    pub fn none() -> (r: Modifiers)
        ensures
            !r.shift && !r.control && !r.alt,
    {
        Modifiers { shift: false, control: false, alt: false }
    }

    /// Only the control modifier held.
    pub fn control_only() -> (r: Modifiers)
        ensures
            !r.shift && r.control && !r.alt,
    {
        Modifiers { shift: false, control: true, alt: false }
    }

    /// Whether the control modifier is held.
    pub fn has_control(&self) -> (r: bool)
        ensures
            r == self.control,
    {
        self.control
    }
}

/// A keystroke: a key code together with the modifiers held with it.
#[derive(Clone, Copy, Debug, PartialEq, Eq, Structural)]
pub struct KeyEvent {
    pub code: KeyCode,
    pub modifiers: Modifiers,
}

impl KeyEvent {
    pub fn new(code: KeyCode, modifiers: Modifiers) -> (r: KeyEvent)
        ensures
            r.code == code && r.modifiers == modifiers,
    {
        KeyEvent { code, modifiers }
    }
}

/// Characters whose control form is the standard derivation: a lowercase
/// letter or the space character.
pub open spec fn is_control_lower_or_space(c: char) -> bool {
    ('a' <= c && c <= 'z') || c == ' '
}

/// Digits whose control form needs the shifted derivation: `'4'` through
/// `'7'` reach the four control codes the standard rule cannot.
pub open spec fn is_control_digit(c: char) -> bool {
    '4' <= c && c <= '7'
}

/// The standard control-code derivation: the low five bits of the
/// character's byte.
pub open spec fn control_code(c: char) -> u8 {
    ((c as u32) % 32) as u8
}

/// The shifted control-code derivation for the digits `'4'` through `'7'`.
pub open spec fn control_digit_code(c: char) -> u8 {
    (((c as u32) + 8) % 32) as u8
}

/// The bytes sent for a printable character under the given modifiers.
/// Without control, and for any character the control rules do not cover,
/// the character's UTF-8 encoding is sent verbatim.
pub open spec fn char_bytes(c: char, m: Modifiers) -> Seq<u8> {
    if m.control && is_control_lower_or_space(c) {
        seq![control_code(c)]
    } else if m.control && is_control_digit(c) {
        seq![control_digit_code(c)]
    } else {
        encode_scalar(c as u32)
    }
}

/// The translation table: the byte sequence a keystroke stands for, or
/// `None` for an unmapped key.
pub open spec fn key_bytes(code: KeyCode, m: Modifiers) -> Option<Seq<u8>> {
    match code {
        KeyCode::Backspace => Some(seq![8u8]),
        KeyCode::Enter => Some(seq![13u8]),
        KeyCode::Left => Some(seq![27u8, 91u8, 68u8]),
        KeyCode::Right => Some(seq![27u8, 91u8, 67u8]),
        KeyCode::Home => Some(seq![27u8, 91u8, 72u8]),
        KeyCode::End => Some(seq![27u8, 91u8, 70u8]),
        KeyCode::Up => Some(seq![27u8, 91u8, 65u8]),
        KeyCode::Down => Some(seq![27u8, 91u8, 66u8]),
        KeyCode::Tab => Some(seq![9u8]),
        KeyCode::Delete => Some(seq![27u8, 91u8, 51u8, 126u8]),
        KeyCode::Insert => Some(seq![27u8, 91u8, 50u8, 126u8]),
        KeyCode::Esc => Some(seq![27u8]),
        KeyCode::Char(c) => Some(char_bytes(c, m)),
        KeyCode::Function(_) => None,
        KeyCode::Other => None,
    }
}

/// Appends the UTF-8 encoding of `c` to `out`.
fn push_utf8_char(c: char, out: &mut Vec<u8>)
    ensures
        final(out)@ == old(out)@ + encode_scalar(c as u32),
{
    proof {
        vstd::utf8::char_is_scalar(c);
    }
    let u = c as u32;
    if u < 0x80 {
        out.push(u as u8);
        proof {
            assert((u & 0x7F) as u8 == u as u8) by (bit_vector)
                requires u < 0x80;
            assert(out@ =~= old(out)@ + encode_scalar(c as u32));
        }
    } else if u < 0x800 {
        out.push(0xC0 | ((u >> 6) & 0x1F) as u8);
        out.push(0x80 | (u & 0x3F) as u8);
        proof {
            assert(out@ =~= old(out)@ + encode_scalar(c as u32));
        }
    } else if u < 0x10000 {
        out.push(0xE0 | ((u >> 12) & 0x0F) as u8);
        out.push(0x80 | ((u >> 6) & 0x3F) as u8);
        out.push(0x80 | (u & 0x3F) as u8);
        proof {
            assert(out@ =~= old(out)@ + encode_scalar(c as u32));
        }
    } else {
        out.push(0xF0 | ((u >> 18) & 0x7) as u8);
        out.push(0x80 | ((u >> 12) & 0x3F) as u8);
        out.push(0x80 | ((u >> 6) & 0x3F) as u8);
        out.push(0x80 | (u & 0x3F) as u8);
        proof {
            assert(out@ =~= old(out)@ + encode_scalar(c as u32));
        }
    }
}

/// The bytes for a printable character under the given modifiers, as
/// `char_bytes` states them.
fn char_press_bytes(c: char, m: Modifiers) -> (r: Vec<u8>)
    ensures
        r@ == char_bytes(c, m),
{
    let mut out: Vec<u8> = Vec::new();
    if m.has_control() && ((('a' <= c) && (c <= 'z')) || c == ' ') {
        out.push(((c as u32) % 32) as u8);
        proof {
            assert(out@ =~= seq![control_code(c)]);
        }
    } else if m.has_control() && (('4' <= c) && (c <= '7')) {
        out.push((((c as u32) + 8) % 32) as u8);
        proof {
            assert(out@ =~= seq![control_digit_code(c)]);
        }
    } else {
        push_utf8_char(c, &mut out);
    }
    out
}

/// Translates one keystroke into the byte sequence the remote terminal
/// expects, or into nothing when the key is unmapped. Unmapped keys are not
/// an error: the caller simply ignores them.
pub fn handle_key_press(key_event: KeyEvent) -> (r: Option<bytes::Bytes>)
    ensures
        (match key_bytes(key_event.code, key_event.modifiers) {
            Some(s) => r matches Some(b) && bytes_view(b) == s,
            None => r is None,
        }),
{
    let out: Option<Vec<u8>> = match key_event.code {
        KeyCode::Backspace => Some(byte_run_1(8)),
        KeyCode::Enter => Some(byte_run_1(13)),
        KeyCode::Left => Some(byte_run_3(27, 91, 68)),
        KeyCode::Right => Some(byte_run_3(27, 91, 67)),
        KeyCode::Home => Some(byte_run_3(27, 91, 72)),
        KeyCode::End => Some(byte_run_3(27, 91, 70)),
        KeyCode::Up => Some(byte_run_3(27, 91, 65)),
        KeyCode::Down => Some(byte_run_3(27, 91, 66)),
        KeyCode::Tab => Some(byte_run_1(9)),
        KeyCode::Delete => Some(byte_run_4(27, 91, 51, 126)),
        KeyCode::Insert => Some(byte_run_4(27, 91, 50, 126)),
        KeyCode::Esc => Some(byte_run_1(27)),
        KeyCode::Char(c) => Some(char_press_bytes(c, key_event.modifiers)),
        KeyCode::Function(_) => None,
        KeyCode::Other => None,
    };
    match out {
        Some(v) => Some(bytes_copy_from_slice(v.as_slice())),
        None => None,
    }
}

/// A one-byte run.
fn byte_run_1(a: u8) -> (r: Vec<u8>)
    ensures
        r@ == seq![a],
{
    let mut v: Vec<u8> = Vec::new();
    v.push(a);
    proof {
        assert(v@ =~= seq![a]);
    }
    v
}

/// A three-byte run.
fn byte_run_3(a: u8, b: u8, c: u8) -> (r: Vec<u8>)
    ensures
        r@ == seq![a, b, c],
{
    let mut v: Vec<u8> = Vec::new();
    v.push(a);
    v.push(b);
    v.push(c);
    proof {
        assert(v@ =~= seq![a, b, c]);
    }
    v
}

/// A four-byte run.
fn byte_run_4(a: u8, b: u8, c: u8, d: u8) -> (r: Vec<u8>)
    ensures
        r@ == seq![a, b, c, d],
{
    let mut v: Vec<u8> = Vec::new();
    v.push(a);
    v.push(b);
    v.push(c);
    v.push(d);
    proof {
        assert(v@ =~= seq![a, b, c, d]);
    }
    v
}

} // verus!

