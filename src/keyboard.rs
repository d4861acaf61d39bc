use vstd::prelude::*;
use pc_keyboard::{
    layouts::Us104Key, DecodedKey, HandleControl, KeyCode, KeyEvent, KeyState, Keyboard,
    ScancodeSet1,
};

verus! {

#[verifier::external_type_specification]
pub struct ExKeyEvent(KeyEvent);

#[verifier::external_type_specification]
pub struct ExKeyState(KeyState);

#[verifier::external_type_specification]
pub struct ExKeyCode(KeyCode);

/// The first byte of a two-byte scancode in set 1.
pub const EXTENDED_PREFIX: u8 = 0xe0;

/// Whether the keyboard has taken the extended prefix and waits for the second
/// byte of the sequence.
pub uninterp spec fn extended_pending(d: ScancodeDecoder) -> bool;

/// Whether scancode set 1 names a key for `byte` (with its release bit
/// cleared), in the extended table when `extended` holds.
pub uninterp spec fn scancode_known(extended: bool, byte: u8) -> bool;

/// The keys whose press only changes the keyboard's modifier state: shift,
/// control, caps lock, num lock and AltGr.
pub open spec fn is_modifier_key(c: KeyCode) -> bool {
    c == KeyCode::ShiftLeft || c == KeyCode::ShiftRight || c == KeyCode::ControlLeft || c
        == KeyCode::ControlRight || c == KeyCode::CapsLock || c == KeyCode::NumpadLock || c
        == KeyCode::AltRight
}

/// The press codes of those keys in scancode set 1, in the extended table when
/// `extended` holds.
pub open spec fn modifier_scancode(extended: bool, b: u8) -> bool {
    if extended {
        b == 0x1d || b == 0x38
    } else {
        b == 0x2a || b == 0x36 || b == 0x1d || b == 0x3a || b == 0x45
    }
}

/// Whether a byte, read in the given sequence state, completes the press of a
/// key that yields a decoded event.
pub open spec fn yields_key(extended: bool, byte: u8) -> bool {
    &&& extended || byte != EXTENDED_PREFIX
    &&& scancode_known(extended, byte)
    &&& byte < 0x80
    &&& !modifier_scancode(extended, byte)
}

/// What one byte of the raw scancode stream gave.
enum ScanStep {
    /// The byte opened a longer sequence.
    Incomplete,
    /// The byte completed a key transition.
    Event(KeyEvent),
    /// The sequence names no key; the decoder starts afresh.
    Unknown,
}

/// A decoded key: a character, or a key that has none.
#[derive(Debug, Clone, Copy)]
pub enum DecodedEvent {
    Unicode(char),
    RawKey(KeyCode),
}

/// Relies on pc_keyboard's Keyboard::new: a fresh keyboard starts outside any
/// multi-byte sequence.
#[verifier::external_body]
fn new_keyboard() -> (r: ScancodeDecoder)
    ensures
        !extended_pending(r),
{
    ScancodeDecoder { keyboard: Keyboard::new(Us104Key, ScancodeSet1, HandleControl::Ignore) }
}

/// Relies on pc_keyboard's Keyboard::add_byte with scancode set 1: the prefix
/// 0xE0 outside a sequence opens one and gives nothing yet; any other byte ends
/// the sequence and gives a key event when set 1 knows the code, an error else.
/// A byte below 0x80 is a press, any other a release; set 1 gives the modifier
/// keys the codes of `modifier_scancode` and no others.
#[verifier::external_body]
fn add_byte(k: &mut ScancodeDecoder, byte: u8) -> (r: ScanStep)
    ensures
        !extended_pending(*old(k)) && byte == EXTENDED_PREFIX ==> r is Incomplete && extended_pending(
            *final(k),
        ),
        extended_pending(*old(k)) || byte != EXTENDED_PREFIX ==> !extended_pending(*final(k)) && (
        r is Event <==> scancode_known(extended_pending(*old(k)), byte)) && !(r is Incomplete),
        r is Event ==> (r->Event_0.state == KeyState::Down <==> byte < 0x80),
        r is Event && byte < 0x80 ==> (is_modifier_key(r->Event_0.code) <==> modifier_scancode(
            extended_pending(*old(k)),
            byte,
        )),
{
    match k.keyboard.add_byte(byte) {
        Ok(None) => ScanStep::Incomplete,
        Ok(Some(event)) => ScanStep::Event(event),
        Err(_) => ScanStep::Unknown,
    }
}

/// Relies on pc_keyboard's Keyboard::process_keyevent: it tracks the modifier
/// keys and leaves the scancode sequence state alone. A release gives nothing,
/// and so does the press of a modifier key; the press of any other key gives a
/// decoded key.
#[verifier::external_body]
fn process_keyevent(k: &mut ScancodeDecoder, event: KeyEvent) -> (r: Option<
    DecodedEvent,
>)
    ensures
        extended_pending(*final(k)) == extended_pending(*old(k)),
        r is Some <==> (event.state == KeyState::Down && !is_modifier_key(event.code)),
{
    match k.keyboard.process_keyevent(event) {
        Some(DecodedKey::Unicode(c)) => Some(DecodedEvent::Unicode(c)),
        Some(DecodedKey::RawKey(code)) => Some(DecodedEvent::RawKey(code)),
        None => None,
    }
}

/// Turns the raw byte stream of a US 104-key keyboard in scancode set 1 into
/// decoded keys. It holds pc_keyboard's Keyboard, whose declaration with its
/// trait bounds Verus refuses; the state is seen through `extended_pending`.
#[verifier::external_body]
pub struct ScancodeDecoder {
    keyboard: Keyboard<Us104Key, ScancodeSet1>,
}

impl ScancodeDecoder {
    /// Whether the decoder holds the first byte of an unfinished sequence.
    pub open spec fn pending(&self) -> bool {
        extended_pending(*self)
    }

    pub fn new() -> (r: ScancodeDecoder)
        ensures
            !r.pending(),
    {
        new_keyboard()
    }

    /// Takes one byte. An opening prefix gives `None` and leaves the decoder
    /// waiting; any other byte completes the sequence and leaves the decoder
    /// ready for the next one. A key is given exactly when the byte completes
    /// the press of a known key other than a modifier; a release, a modifier
    /// or a sequence that names no key gives `None`.
    pub fn feed(&mut self, byte: u8) -> (r: Option<DecodedEvent>)
        ensures
            !old(self).pending() && byte == EXTENDED_PREFIX ==> r is None && final(self).pending(),
            old(self).pending() || byte != EXTENDED_PREFIX ==> !final(self).pending(),
            !scancode_known(old(self).pending(), byte) ==> r is None,
            r is Some <==> yields_key(old(self).pending(), byte),
    {
        match add_byte(self, byte) {
            ScanStep::Event(event) => process_keyevent(self, event),
            ScanStep::Incomplete => None,
            ScanStep::Unknown => None,
        }
    }
}

} // verus!
