//! The PS/2 keyboard: the keys that a decoded key press puts into the input
//! buffer.

use vstd::prelude::*;

use crate::input::{push_key, InputBuffer};
use pc_keyboard::layouts::Us104Key;
use pc_keyboard::{DecodedKey, HandleControl, KeyCode, PS2Keyboard, ScancodeSet1};

verus! {

/// A decoded key press: a character, the backspace key or another key.
#[derive(Clone, Copy, Debug, PartialEq, Eq, Structural)]
pub enum Decoded {
    /// A key that stands for a character.
    Unicode(char),
    /// The backspace key.
    Backspace,
    /// Another key that stands for no character.
    OtherRaw,
}

/// The byte that a decoded key puts into the input buffer: a new line for
/// `\n` and `\r`, the character's code for other ASCII characters, 0x08 for
/// backspace, and nothing for anything else.
pub open spec fn spec_key_of_decoded(d: Decoded) -> Option<u8> {
    match d {
        Decoded::Unicode(c) => if c == '\n' || c == '\r' {
            Some(0x0au8)
        } else if (c as u32) < 0x80 {
            Some(c as u8)
        } else {
            None
        },
        Decoded::Backspace => Some(0x08u8),
        Decoded::OtherRaw => None,
    }
}

/// Typed characters reach the input buffer as they are: every ASCII character
/// (the space and the control characters included) puts its own code, save
/// that a carriage return arrives as a new line; no other character puts
/// anything, and the backspace key puts 0x08.
pub proof fn lemma_typed_keys(c: char)
    ensures
        (c as u32) < 0x80 && c != '\r' ==> spec_key_of_decoded(Decoded::Unicode(c)) == Some(
            c as u8,
        ),
        c == '\r' ==> spec_key_of_decoded(Decoded::Unicode(c)) == Some(0x0au8),
        (c as u32) >= 0x80 ==> spec_key_of_decoded(Decoded::Unicode(c)) is None,
        spec_key_of_decoded(Decoded::Backspace) == Some(0x08u8),
        spec_key_of_decoded(Decoded::OtherRaw) is None,
{
}

/// The byte that a decoded key puts into the input buffer.
pub fn key_of_decoded(d: Decoded) -> (r: Option<u8>)
    ensures
        r == spec_key_of_decoded(d),
{
    match d {
        Decoded::Unicode(c) => {
            if c == '\n' || c == '\r' {
                Some(0x0a)
            } else if (c as u32) < 0x80 {
                Some(c as u8)
            } else {
                None
            }
        },
        Decoded::Backspace => Some(0x08),
        Decoded::OtherRaw => None,
    }
}

/// The console's keyboard: pc-keyboard's decoder for scancode set 1 and the
/// US 104-key layout. Verus sees nothing of the decoder's state (the
/// modifier keys held, a pending extended code).
#[verifier::external_body]
pub struct Keyboard {
    kb: PS2Keyboard<Us104Key, ScancodeSet1>,
}

/// Calls pc-keyboard's `PS2Keyboard::new` with scancode set 1, the US 104-key
/// layout and control keys left as they are. Nothing is stated of the
/// decoder's state.
#[verifier::external_body]
fn keyboard_new() -> (r: Keyboard) {
    Keyboard { kb: PS2Keyboard::new(ScancodeSet1::new(), Us104Key, HandleControl::Ignore) }
}

/// Calls pc-keyboard's `PS2Keyboard::add_byte` with a scancode and, where
/// that completes a key event, `PS2Keyboard::process_keyevent`; a decoded key
/// is converted to a `Decoded`, the backspace key told apart from other raw
/// keys. Which key comes out depends on the decoder's state as well as on the
/// scancode, so nothing is stated of it.
#[verifier::external_body]
fn keyboard_decode(kb: &mut Keyboard, scancode: u8) -> (r: Option<Decoded>) {
    let event = kb.kb.add_byte(scancode).ok().flatten()?;
    match kb.kb.process_keyevent(event)? {
        DecodedKey::Unicode(c) => Some(Decoded::Unicode(c)),
        DecodedKey::RawKey(KeyCode::Backspace) => Some(Decoded::Backspace),
        DecodedKey::RawKey(_) => Some(Decoded::OtherRaw),
    }
}

impl Keyboard {
    /// The keyboard of the console: scancode set 1, US layout.
    pub fn new() -> (r: Keyboard) {
        keyboard_new()
    }
}

/// A scancode read from the keyboard: the decoder turns it into a key press,
/// if it completes one, and the key's byte, if it has one, goes into the
/// input buffer (dropped where the buffer is full). Returns the key press.
pub fn keyboard_receive(kb: &mut Keyboard, buf: &mut InputBuffer, scancode: u8) -> (r: Option<
    Decoded,
>)
    ensures
        final(buf).capacity() == old(buf).capacity(),
        r is Some && spec_key_of_decoded(r->0) is Some && old(buf).keys().len() < old(
            buf,
        ).capacity() ==> final(buf).keys() == old(buf).keys().push(spec_key_of_decoded(r->0)->0),
        !(r is Some && spec_key_of_decoded(r->0) is Some && old(buf).keys().len() < old(
            buf,
        ).capacity()) ==> final(buf).keys() == old(buf).keys(),
{
    let decoded = keyboard_decode(kb, scancode);
    if let Some(d) = decoded {
        if let Some(k) = key_of_decoded(d) {
            push_key(buf, k);
        }
    }
    decoded
}

} // verus!
