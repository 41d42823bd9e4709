//! Turning the bytes of a PS/2 keyboard into key presses for the console,
//! with the `pc_keyboard` decoder (scan code set 1, US 104-key layout).

use vstd::prelude::*;
use vstd::string::StringSliceAdditionalSpecFns;
use pc_keyboard::layouts::Us104Key;
use pc_keyboard::{PS2Keyboard, ScancodeSet1};
use crate::keyboard::{action_is, console_step, console_step_ok, DecodedKey, KeyAction, KeyCode, KeyConsole};
use crate::vga_buffer::writer::{st_ok, Writer};

verus! {

/// What the `pc_keyboard` decoder (scan code set 1, US 104-key layout,
/// Ctrl passed through as a raw key), started afresh and fed `bytes` in
/// order, with every key event it completes turned into a key, gives for
/// the last byte: `None` when that byte completes no key event (or the
/// decoder reports an error on it), `Some(None)` when the event it
/// completes gives no key, and `Some(Some(k))` for the key `k`, a raw key
/// carrying the name its `Debug` form prints.
pub uninterp spec fn ps2_decode(bytes: Seq<u8>) -> Option<Option<DecodedKey>>;

/// Runs a fresh `pc_keyboard` decoder (`PS2Keyboard::new`, then
/// `add_byte` on each byte and `process_keyevent` on each key event that
/// completes) over `bytes`, and gives what the last byte gave (see
/// `ps2_decode`).
#[verifier::external_body]
fn decode_bytes(bytes: &[u8]) -> (r: Option<Option<DecodedKey>>)
    ensures
        r == ps2_decode(bytes@),
{
    let mut keyboard = PS2Keyboard::new(ScancodeSet1::new(), Us104Key, pc_keyboard::HandleControl::Ignore);
    let mut last = None;
    for byte in bytes.iter() {
        last = match keyboard.add_byte(*byte) {
            Ok(Some(event)) => Some(match keyboard.process_keyevent(event) {
                Some(pc_keyboard::DecodedKey::Unicode(c)) => Some(DecodedKey::Unicode(c)),
                Some(pc_keyboard::DecodedKey::RawKey(code)) => Some(DecodedKey::RawKey(KeyCode::Other(format!("{:?}", code).into_bytes()))),
                None => None,
            }),
            _ => None,
        };
    }
    last
}

/// The console's name for a raw key: the Alt keys and the arrow keys by
/// their own names, any other key by the name it carries.
pub open spec fn console_key(key: DecodedKey) -> DecodedKey {
    match key {
        DecodedKey::RawKey(KeyCode::Other(name)) => if name@ == "LAlt".spec_bytes() {
            DecodedKey::RawKey(KeyCode::AltLeft)
        } else if name@ == "RAltGr".spec_bytes() {
            DecodedKey::RawKey(KeyCode::AltRight)
        } else if name@ == "ArrowUp".spec_bytes() {
            DecodedKey::RawKey(KeyCode::ArrowUp)
        } else if name@ == "ArrowDown".spec_bytes() {
            DecodedKey::RawKey(KeyCode::ArrowDown)
        } else if name@ == "ArrowLeft".spec_bytes() {
            DecodedKey::RawKey(KeyCode::ArrowLeft)
        } else if name@ == "ArrowRight".spec_bytes() {
            DecodedKey::RawKey(KeyCode::ArrowRight)
        } else {
            key
        },
        _ => key,
    }
}

/// What the decoder gives for the last of `bytes`, with raw keys under the
/// console's names (see `ps2_decode` and `console_key`).
pub open spec fn decoded_key(bytes: Seq<u8>) -> Option<Option<DecodedKey>> {
    match ps2_decode(bytes) {
        Some(Some(k)) => Some(Some(console_key(k))),
        other => other,
    }
}

/// Whether two byte strings are equal.
fn same_bytes(a: &[u8], b: &[u8]) -> (r: bool)
    ensures
        r == (a@ == b@),
{
    if a.len() != b.len() {
        return false;
    }
    let mut i: usize = 0;
    while i < a.len()
        invariant
            i <= a@.len(),
            a@.len() == b@.len(),
            forall|j: int| 0 <= j < i ==> a@[j] == b@[j],
        decreases a@.len() - i,
    {
        if a[i] != b[i] {
            return false;
        }
        i = i + 1;
    }
    assert(a@ =~= b@);
    true
}

/// Gives a raw key the console's name for it (see `console_key`).
pub fn to_console_key(key: DecodedKey) -> (k: DecodedKey)
    ensures
        k == console_key(key),
{
    match key {
        DecodedKey::RawKey(KeyCode::Other(name)) => {
            if same_bytes(name.as_slice(), "LAlt".as_bytes()) {
                DecodedKey::RawKey(KeyCode::AltLeft)
            } else if same_bytes(name.as_slice(), "RAltGr".as_bytes()) {
                DecodedKey::RawKey(KeyCode::AltRight)
            } else if same_bytes(name.as_slice(), "ArrowUp".as_bytes()) {
                DecodedKey::RawKey(KeyCode::ArrowUp)
            } else if same_bytes(name.as_slice(), "ArrowDown".as_bytes()) {
                DecodedKey::RawKey(KeyCode::ArrowDown)
            } else if same_bytes(name.as_slice(), "ArrowLeft".as_bytes()) {
                DecodedKey::RawKey(KeyCode::ArrowLeft)
            } else if same_bytes(name.as_slice(), "ArrowRight".as_bytes()) {
                DecodedKey::RawKey(KeyCode::ArrowRight)
            } else {
                DecodedKey::RawKey(KeyCode::Other(name))
            }
        },
        other => other,
    }
}

/// The keyboard decoder: the bytes the keyboard sent so far, oldest first.
/// What a byte gives depends on the bytes before it (an extended-key
/// prefix, the modifier keys held), so the decoder runs over all of them.
pub struct KeyDecoder {
    fed: Vec<u8>,
}

impl KeyDecoder {
    /// The bytes fed to the decoder, oldest first.
    pub closed spec fn fed(&self) -> Seq<u8> {
        self.fed@
    }

    /// A decoder in its start state, fed nothing yet.
    pub fn new() -> (d: KeyDecoder)
        ensures
            d.fed() == Seq::<u8>::empty(),
    {
        KeyDecoder { fed: Vec::new() }
    }

    /// Feeds one byte to the decoder and gives what it completes (see
    /// `decoded_key`).
    pub fn feed(&mut self, byte: u8) -> (r: Option<Option<DecodedKey>>)
        ensures
            final(self).fed() == old(self).fed().push(byte),
            r == decoded_key(final(self).fed()),
    {
        self.fed.push(byte);
        match decode_bytes(self.fed.as_slice()) {
            Some(Some(key)) => Some(Some(to_console_key(key))),
            Some(None) => Some(None),
            None => None,
        }
    }
}

/// What became of a byte from the keyboard.
pub enum ScancodeOutcome {
    /// The byte completed no key press.
    NoKey,
    /// A key press was decoded that the console cannot take in its state
    /// (an argument that would not fit, or a number out of range); the
    /// console and the screen are left as they were.
    Refused,
    /// A key press was decoded and handled; the action is left to the caller.
    Handled(KeyAction),
}

impl KeyConsole {
    /// Hands what the decoder gave for a byte to the console: a key the
    /// console can take is handled (see `handle_key`), any other key is
    /// refused with nothing changed, and no key changes nothing.
    pub fn handle_decoded(&mut self, decoded: Option<Option<DecodedKey>>, writer: &mut Writer) -> (r:
        ScancodeOutcome)
        requires
            old(self).wf(),
            old(writer).wf(),
            st_ok(old(writer)@),
        ensures
            final(self).wf(),
            final(writer).wf(),
            st_ok(final(writer)@),
            final(self).decoder == old(self).decoder,
            match decoded {
                Some(Some(k)) => if console_step_ok(old(self)@, k, old(writer)@) {
                    &&& r matches ScancodeOutcome::Handled(a) && action_is(a, console_step(old(self)@, k, old(writer)@).2)
                    &&& final(self)@ == console_step(old(self)@, k, old(writer)@).0
                    &&& final(writer)@ == console_step(old(self)@, k, old(writer)@).1
                } else {
                    &&& r is Refused
                    &&& final(self)@ == old(self)@
                    &&& final(writer)@ == old(writer)@
                },
                _ => r is NoKey && final(self)@ == old(self)@ && final(writer)@ == old(writer)@,
            },
    {
        let key = match decoded {
            Some(Some(key)) => key,
            _ => return ScancodeOutcome::NoKey,
        };
        if !self.key_ok(&key, writer) {
            return ScancodeOutcome::Refused;
        }
        let a = self.handle_key(key, writer);
        ScancodeOutcome::Handled(a)
    }

    /// Feeds a byte from the keyboard to the console's decoder and hands
    /// what it gives to the console (see `handle_decoded`): the decoder is
    /// fed exactly this byte, after all the earlier ones.
    pub fn handle_scancode(&mut self, scancode: u8, writer: &mut Writer) -> (r: ScancodeOutcome)
        requires
            old(self).wf(),
            old(writer).wf(),
            st_ok(old(writer)@),
        ensures
            final(self).wf(),
            final(writer).wf(),
            st_ok(final(writer)@),
            final(self).decoder.fed() == old(self).decoder.fed().push(scancode),
            match decoded_key(old(self).decoder.fed().push(scancode)) {
                Some(Some(k)) => if console_step_ok(old(self)@, k, old(writer)@) {
                    &&& r matches ScancodeOutcome::Handled(a) && action_is(a, console_step(old(self)@, k, old(writer)@).2)
                    &&& final(self)@ == console_step(old(self)@, k, old(writer)@).0
                    &&& final(writer)@ == console_step(old(self)@, k, old(writer)@).1
                } else {
                    &&& r is Refused
                    &&& final(self)@ == old(self)@
                    &&& final(writer)@ == old(writer)@
                },
                _ => r is NoKey && final(self)@ == old(self)@ && final(writer)@ == old(writer)@,
            },
    {
        let decoded = self.decoder.feed(scancode);
        self.handle_decoded(decoded, writer)
    }
}

} // verus!
