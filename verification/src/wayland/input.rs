//! Wayland key handling.
//!
//! All key events pass through the compositor.  For each key press the caller
//! resolves the modifier state and the keysym; a combo found in the binding map
//! is consumed, any other is forwarded to the focused client.

use crate::event::Event;
use crate::hotkey::{first_binding, BindingMap, Key, KeyCombo, Modifiers};
use crate::keynames::{char_key, digit_name, function_key, function_name, letter_name};
use crate::text::lower;
use vstd::prelude::*;

verus! {

/// Check a key press against the binding map.
///
/// Returns the keybinding event if the combo is bound, and nothing if the key
/// should be forwarded to the focused client.
pub fn check_binding(map: &BindingMap, modifiers: Modifiers, key_name: &str) -> (r: Option<Event>)
    ensures
        match r {
            Some(e) => exists|i: int| #[trigger]
                first_binding(map@, (modifiers, lower(key_name@)), i) && e == Event::Keybinding(
                    map@[i].id,
                ),
            None => forall|i: int|
                0 <= i < map@.len() ==> (#[trigger] map@[i]).combo != (modifiers, lower(key_name@)),
        },
{
    let combo = KeyCombo { modifiers, key: Key::new(key_name) };
    match map.id_for_combo(&combo) {
        Some(id) => Some(Event::Keybinding(id)),
        None => None,
    }
}

/// Bit `index` of `mask` is set.
pub open spec fn bit_set(mask: u32, index: u32) -> bool {
    mask & (1u32 << index) != 0
}

/// Translate an xkb modifier mask; each index is the bit of that modifier in
/// the loaded keymap.
pub fn xkb_mods_to_modifiers(
    active: u32,
    idx_alt: u32,
    idx_ctrl: u32,
    idx_shift: u32,
    idx_super: u32,
) -> (m: Modifiers)
    requires
        idx_alt < 32,
        idx_ctrl < 32,
        idx_shift < 32,
        idx_super < 32,
    ensures
        m.alt == bit_set(active, idx_alt),
        m.ctrl == bit_set(active, idx_ctrl),
        m.shift == bit_set(active, idx_shift),
        m.super_key == bit_set(active, idx_super),
{
    Modifiers {
        alt: active & (1u32 << idx_alt) != 0,
        ctrl: active & (1u32 << idx_ctrl) != 0,
        shift: active & (1u32 << idx_shift) != 0,
        super_key: active & (1u32 << idx_super) != 0,
    }
}

/// The keys that have a name of their own.
pub open spec fn named_keysym(keysym: u32) -> Seq<char> {
    match keysym {
        0xFF0D => "return"@,
        0x0020 => "space"@,
        0xFF09 => "tab"@,
        0xFF1B => "escape"@,
        0xFF08 => "backspace"@,
        0xFFFF => "delete"@,
        0xFF52 => "up"@,
        0xFF54 => "down"@,
        0xFF51 => "left"@,
        0xFF53 => "right"@,
        0xFF50 => "home"@,
        0xFF57 => "end"@,
        0xFF55 => "pageup"@,
        0xFF56 => "pagedown"@,
        0x003B => "semicolon"@,
        0x002C => "comma"@,
        0x002E => "period"@,
        0x002D => "minus"@,
        0x003D => "plus"@,
        0x002F => "slash"@,
        0x0060 => "grave"@,
        0x005B => "bracketleft"@,
        0x005D => "bracketright"@,
        0x005C => "backslash"@,
        0x0027 => "apostrophe"@,
        _ => "unknown"@,
    }
}

/// The portable key name of an xkb keysym: letters and digits name themselves,
/// `XK_F1` to `XK_F12` are numbered, the others have a name of their own.
pub open spec fn keysym_name(keysym: u32) -> Seq<char> {
    if 0x61 <= keysym <= 0x7A || 0x30 <= keysym <= 0x39 {
        char_key(keysym as int)
    } else if 0xFFBE <= keysym <= 0xFFC9 {
        function_key(keysym - 0xFFBE + 1)
    } else {
        named_keysym(keysym)
    }
}

/// Translate an xkb keysym to a portable key name; an unknown keysym gives
/// `unknown`.
pub fn keysym_to_key_name(keysym: u32) -> (r: &'static str)
    ensures
        r@ == keysym_name(keysym),
{
    if 0x61 <= keysym && keysym <= 0x7A {
        return letter_name(keysym - 0x61);
    }
    if 0x30 <= keysym && keysym <= 0x39 {
        return digit_name(keysym - 0x30);
    }
    if 0xFFBE <= keysym && keysym <= 0xFFC9 {
        return function_name(keysym - 0xFFBE + 1);
    }
    match keysym {
        0xFF0D => "return",
        0x0020 => "space",
        0xFF09 => "tab",
        0xFF1B => "escape",
        0xFF08 => "backspace",
        0xFFFF => "delete",
        0xFF52 => "up",
        0xFF54 => "down",
        0xFF51 => "left",
        0xFF53 => "right",
        0xFF50 => "home",
        0xFF57 => "end",
        0xFF55 => "pageup",
        0xFF56 => "pagedown",
        0x003B => "semicolon",
        0x002C => "comma",
        0x002E => "period",
        0x002D => "minus",
        0x003D => "plus",
        0x002F => "slash",
        0x0060 => "grave",
        0x005B => "bracketleft",
        0x005D => "bracketright",
        0x005C => "backslash",
        0x0027 => "apostrophe",
        _ => "unknown",
    }
}

} // verus!
