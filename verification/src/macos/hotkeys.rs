//! macOS global hotkeys: the channel that carries fired keybindings, and the
//! translation of native key events.

use crate::error::Error;
use crate::event::KeybindingId;
use crate::hotkey::{first_binding, BindingMap, Key, KeyCombo, Modifiers};
use crate::keynames::{char_key, digit_name, function_key, function_name, letter_name};
use std::sync::mpsc::Receiver;
use vstd::prelude::*;
use vstd::string::*;

verus! {

/// The receiving half of a channel of `std::sync::mpsc`.
#[verifier::external_type_specification]
#[verifier::external_body]
#[verifier::reject_recursive_types(T)]
pub struct ExReceiver<T>(Receiver<T>);

/// The channel lost its last sender before anything was sent, so it holds nothing
/// and nothing can ever arrive.
pub uninterp spec fn silent(receiver: Receiver<KeybindingId>) -> bool;

/// Calls `std::sync::mpsc::channel` and keeps the receiving half.  The only sender
/// is dropped unused, which leaves the channel silent.
#[verifier::external_body]
fn hotkey_channel() -> (r: Receiver<KeybindingId>)
    ensures
        silent(r),
{
    std::sync::mpsc::channel().1
}

/// Calls `Receiver::recv`, which blocks for the next message and fails once the
/// channel is empty and has no sender left: on a silent channel it fails at once.
/// What arrives on any other channel is up to the sending thread, so nothing is
/// claimed of it.
#[verifier::external_body]
pub(crate) fn receive(receiver: &Receiver<KeybindingId>) -> (r: Option<KeybindingId>)
    ensures
        silent(*receiver) ==> r is None,
{
    receiver.recv().ok()
}

/// Source of fired keybindings.
pub struct HotkeyManager {
    pub receiver: Receiver<KeybindingId>,
}

impl HotkeyManager {
    /// No key event tap is installed yet: whatever the bindings, registering
    /// succeeds and no keybinding ever fires.
    pub fn register(map: &BindingMap) -> (r: Result<Self, Error>)
        ensures
            r matches Ok(manager) && silent(manager.receiver),
    {
        Ok(Self { receiver: hotkey_channel() })
    }
}

/// The modifier set of event flags: alternate, control, shift and command.
pub open spec fn flag_modifiers(flags: u64) -> Modifiers {
    Modifiers {
        alt: flags & 0x0008_0000 != 0,
        ctrl: flags & 0x0004_0000 != 0,
        shift: flags & 0x0002_0000 != 0,
        super_key: flags & 0x0010_0000 != 0,
    }
}

/// Convert event flags to the modifier set.
pub fn cg_flags_to_modifiers(flags: u64) -> (m: Modifiers)
    ensures
        m == flag_modifiers(flags),
{
    Modifiers {
        alt: flags & 0x0008_0000 != 0,
        ctrl: flags & 0x0004_0000 != 0,
        shift: flags & 0x0002_0000 != 0,
        super_key: flags & 0x0010_0000 != 0,
    }
}

/// The portable key name of a virtual key code.
pub open spec fn keycode_name(code: u16) -> Seq<char> {
    match code {
        0x00 => char_key('a' as int),
        0x0B => char_key('b' as int),
        0x08 => char_key('c' as int),
        0x02 => char_key('d' as int),
        0x0E => char_key('e' as int),
        0x03 => char_key('f' as int),
        0x05 => char_key('g' as int),
        0x04 => char_key('h' as int),
        0x22 => char_key('i' as int),
        0x26 => char_key('j' as int),
        0x28 => char_key('k' as int),
        0x25 => char_key('l' as int),
        0x2E => char_key('m' as int),
        0x2D => char_key('n' as int),
        0x1F => char_key('o' as int),
        0x23 => char_key('p' as int),
        0x0C => char_key('q' as int),
        0x0F => char_key('r' as int),
        0x01 => char_key('s' as int),
        0x11 => char_key('t' as int),
        0x20 => char_key('u' as int),
        0x09 => char_key('v' as int),
        0x0D => char_key('w' as int),
        0x07 => char_key('x' as int),
        0x10 => char_key('y' as int),
        0x06 => char_key('z' as int),
        0x1D => char_key('0' as int),
        0x12 => char_key('1' as int),
        0x13 => char_key('2' as int),
        0x14 => char_key('3' as int),
        0x15 => char_key('4' as int),
        0x17 => char_key('5' as int),
        0x16 => char_key('6' as int),
        0x1A => char_key('7' as int),
        0x1C => char_key('8' as int),
        0x19 => char_key('9' as int),
        0x7A => function_key(1),
        0x78 => function_key(2),
        0x63 => function_key(3),
        0x76 => function_key(4),
        0x60 => function_key(5),
        0x61 => function_key(6),
        0x62 => function_key(7),
        0x64 => function_key(8),
        0x65 => function_key(9),
        0x6D => function_key(10),
        0x67 => function_key(11),
        0x6F => function_key(12),
        0x24 => "return"@,
        0x31 => "space"@,
        0x30 => "tab"@,
        0x35 => "escape"@,
        0x33 => "backspace"@,
        0x75 => "delete"@,
        0x7E => "up"@,
        0x7D => "down"@,
        0x7B => "left"@,
        0x7C => "right"@,
        0x73 => "home"@,
        0x77 => "end"@,
        0x74 => "pageup"@,
        0x79 => "pagedown"@,
        0x29 => "semicolon"@,
        0x2B => "comma"@,
        0x2F => "period"@,
        0x1B => "minus"@,
        0x18 => "plus"@,
        0x2C => "slash"@,
        0x32 => "grave"@,
        0x21 => "bracketleft"@,
        0x1E => "bracketright"@,
        0x2A => "backslash"@,
        0x27 => "apostrophe"@,
        _ => "unknown"@,
    }
}

/// Map a virtual key code, of which the low 16 bits count, to a portable key.
pub fn cgkeycode_to_key(code: i64) -> (r: Key)
    ensures
        r.0@ == keycode_name(code as u16),
{
    let name = match code as u16 {
        0x00 => letter_name(0),
        0x0B => letter_name(1),
        0x08 => letter_name(2),
        0x02 => letter_name(3),
        0x0E => letter_name(4),
        0x03 => letter_name(5),
        0x05 => letter_name(6),
        0x04 => letter_name(7),
        0x22 => letter_name(8),
        0x26 => letter_name(9),
        0x28 => letter_name(10),
        0x25 => letter_name(11),
        0x2E => letter_name(12),
        0x2D => letter_name(13),
        0x1F => letter_name(14),
        0x23 => letter_name(15),
        0x0C => letter_name(16),
        0x0F => letter_name(17),
        0x01 => letter_name(18),
        0x11 => letter_name(19),
        0x20 => letter_name(20),
        0x09 => letter_name(21),
        0x0D => letter_name(22),
        0x07 => letter_name(23),
        0x10 => letter_name(24),
        0x06 => letter_name(25),
        0x1D => digit_name(0),
        0x12 => digit_name(1),
        0x13 => digit_name(2),
        0x14 => digit_name(3),
        0x15 => digit_name(4),
        0x17 => digit_name(5),
        0x16 => digit_name(6),
        0x1A => digit_name(7),
        0x1C => digit_name(8),
        0x19 => digit_name(9),
        0x7A => function_name(1),
        0x78 => function_name(2),
        0x63 => function_name(3),
        0x76 => function_name(4),
        0x60 => function_name(5),
        0x61 => function_name(6),
        0x62 => function_name(7),
        0x64 => function_name(8),
        0x65 => function_name(9),
        0x6D => function_name(10),
        0x67 => function_name(11),
        0x6F => function_name(12),
        0x24 => "return",
        0x31 => "space",
        0x30 => "tab",
        0x35 => "escape",
        0x33 => "backspace",
        0x75 => "delete",
        0x7E => "up",
        0x7D => "down",
        0x7B => "left",
        0x7C => "right",
        0x73 => "home",
        0x77 => "end",
        0x74 => "pageup",
        0x79 => "pagedown",
        0x29 => "semicolon",
        0x2B => "comma",
        0x2F => "period",
        0x1B => "minus",
        0x18 => "plus",
        0x2C => "slash",
        0x32 => "grave",
        0x21 => "bracketleft",
        0x1E => "bracketright",
        0x2A => "backslash",
        0x27 => "apostrophe",
        _ => "unknown",
    };
    Key(name.to_owned())
}

/// The binding that a key event fires, if any: the event is then kept from the
/// application that has the focus.
pub fn tapped_binding(map: &BindingMap, flags: u64, code: i64) -> (r: Option<KeybindingId>)
    ensures
        ({
            let combo = (flag_modifiers(flags), keycode_name(code as u16));
            match r {
                Some(id) => exists|i: int| #[trigger]
                    first_binding(map@, combo, i) && map@[i].id == id,
                None => forall|i: int|
                    0 <= i < map@.len() ==> (#[trigger] map@[i]).combo != combo,
            }
        }),
{
    let combo = KeyCombo { modifiers: cg_flags_to_modifiers(flags), key: cgkeycode_to_key(code) };
    assert(combo@ == (flag_modifiers(flags), keycode_name(code as u16)));
    map.id_for_combo(&combo)
}

} // verus!
