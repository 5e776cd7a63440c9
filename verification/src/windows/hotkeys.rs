//! Global hotkeys by a low-level keyboard hook.
//!
//! The hook sees every key press of the system.  A press that matches a
//! configured binding is reported to the message queue and consumed, so that it
//! does not reach the focused application.

use crate::action::Parsed;
use crate::error::{is_config_error, joined, Error};
use crate::event::KeybindingId;
use crate::hotkey::{Binding, BindingMap, Key, KeyCombo, Modifiers};
use crate::text::{chars_of, parse_number, parse_unsigned, same, starts_with, strip_prefix};
use vstd::prelude::*;
use vstd::string::*;

verus! {

/// Thread message that reports a matched binding: the second of the messages
/// that applications may define.
pub const WM_KBD_HOTKEY: u32 = 0x0402;

/// Window message of a key going down.
pub const WM_KEYDOWN: u32 = 0x0100;

/// Window message of a key going down while Alt is held.
pub const WM_SYSKEYDOWN: u32 = 0x0104;

// ── Modifiers ────────────────────────────────────────────────────────────────

/// A bit worth `value`, if it is set.
pub open spec fn flag(set: bool, value: u32) -> int {
    if set {
        value as int
    } else {
        0
    }
}

/// Modifier set as a number: Alt is 1, Ctrl 2, Shift 4 and Super 8.
pub open spec fn modifier_bits(m: Modifiers) -> int {
    flag(m.alt, 1) + flag(m.ctrl, 2) + flag(m.shift, 4) + flag(m.super_key, 8)
}

/// Modifier set as a number.
pub fn mods_to_bits(m: Modifiers) -> (r: u32)
    ensures
        r == modifier_bits(m),
{
    let mut out: u32 = 0;
    if m.contains(Modifiers::ALT()) {
        out += 1;
    }
    if m.contains(Modifiers::CTRL()) {
        out += 2;
    }
    if m.contains(Modifiers::SHIFT()) {
        out += 4;
    }
    if m.contains(Modifiers::SUPER()) {
        out += 8;
    }
    out
}

/// Different modifier sets have different numbers.
pub proof fn modifier_bits_are_unique(a: Modifiers, b: Modifiers)
    requires
        modifier_bits(a) == modifier_bits(b),
    ensures
        a == b,
{
}

/// The modifier keys that are held during a key press.
#[derive(Debug, Clone, Copy)]
pub struct HeldKeys {
    pub alt: bool,
    pub ctrl: bool,
    pub shift: bool,
    pub left_win: bool,
    pub right_win: bool,
}

/// The modifiers that held keys stand for; either Windows key is Super.
pub open spec fn held_modifiers(held: HeldKeys) -> Modifiers {
    Modifiers {
        alt: held.alt,
        ctrl: held.ctrl,
        shift: held.shift,
        super_key: held.left_win || held.right_win,
    }
}

/// The modifiers that held keys stand for.
pub fn pressed_modifiers(held: HeldKeys) -> (r: Modifiers)
    ensures
        r == held_modifiers(held),
{
    Modifiers {
        alt: held.alt,
        ctrl: held.ctrl,
        shift: held.shift,
        super_key: held.left_win || held.right_win,
    }
}

// ── Keys ─────────────────────────────────────────────────────────────────────

/// Virtual-key code of a named key, if the name is one of those listed.
pub open spec fn listed_key(name: Seq<char>) -> Option<u16> {
    if name == "return"@ || name == "enter"@ {
        Some(0x0D)
    } else if name == "space"@ {
        Some(0x20)
    } else if name == "tab"@ {
        Some(0x09)
    } else if name == "escape"@ || name == "esc"@ {
        Some(0x1B)
    } else if name == "backspace"@ {
        Some(0x08)
    } else if name == "delete"@ {
        Some(0x2E)
    } else if name == "up"@ {
        Some(0x26)
    } else if name == "down"@ {
        Some(0x28)
    } else if name == "left"@ {
        Some(0x25)
    } else if name == "right"@ {
        Some(0x27)
    } else if name == "home"@ {
        Some(0x24)
    } else if name == "end"@ {
        Some(0x23)
    } else if name == "pageup"@ {
        Some(0x21)
    } else if name == "pagedown"@ {
        Some(0x22)
    } else if name == "semicolon"@ {
        Some(0xBA)
    } else if name == "plus"@ {
        Some(0xBB)
    } else if name == "comma"@ {
        Some(0xBC)
    } else if name == "minus"@ {
        Some(0xBD)
    } else if name == "period"@ {
        Some(0xBE)
    } else if name == "slash"@ {
        Some(0xBF)
    } else if name == "grave"@ {
        Some(0xC0)
    } else if name == "bracketleft"@ {
        Some(0xDB)
    } else if name == "backslash"@ {
        Some(0xDC)
    } else if name == "bracketright"@ {
        Some(0xDD)
    } else if name == "apostrophe"@ {
        Some(0xDE)
    } else {
        None
    }
}

/// Virtual-key code of a one-letter or one-digit key name.
pub open spec fn character_key(name: Seq<char>) -> Option<u16> {
    if name.len() != 1 {
        None
    } else if 'a' <= name[0] && name[0] <= 'z' {
        Some((name[0] as u32 - 32) as u16)
    } else if ('A' <= name[0] && name[0] <= 'Z') || ('0' <= name[0] && name[0] <= '9') {
        Some(name[0] as u16)
    } else {
        None
    }
}

/// Virtual-key code of a function key name, `f1` to `f12`.
pub open spec fn function_key_code(name: Seq<char>) -> Option<u16> {
    if name.len() > 0 && name[0] == 'f' {
        match parse_unsigned(name.skip(1), 10, 255) {
            Some(n) => if 1 <= n <= 12 {
                Some((0x6F + n) as u16)
            } else {
                None
            },
            None => None,
        }
    } else {
        None
    }
}

/// Virtual-key code of a key name, or the message for a key without one.
pub open spec fn virtual_key(name: Seq<char>) -> Parsed<u16> {
    match character_key(name) {
        Some(vk) => Parsed::Value(vk),
        None => match function_key_code(name) {
            Some(vk) => Parsed::Value(vk),
            None => match listed_key(name) {
                Some(vk) => Parsed::Value(vk),
                None => Parsed::Rejected("unsupported key: "@ + name),
            },
        },
    }
}

fn listed(name: &str) -> (r: Option<u16>)
    ensures
        r == listed_key(name@),
{
    if same(name, "return") || same(name, "enter") {
        Some(0x0D)
    } else if same(name, "space") {
        Some(0x20)
    } else if same(name, "tab") {
        Some(0x09)
    } else if same(name, "escape") || same(name, "esc") {
        Some(0x1B)
    } else if same(name, "backspace") {
        Some(0x08)
    } else if same(name, "delete") {
        Some(0x2E)
    } else if same(name, "up") {
        Some(0x26)
    } else if same(name, "down") {
        Some(0x28)
    } else if same(name, "left") {
        Some(0x25)
    } else if same(name, "right") {
        Some(0x27)
    } else if same(name, "home") {
        Some(0x24)
    } else if same(name, "end") {
        Some(0x23)
    } else if same(name, "pageup") {
        Some(0x21)
    } else if same(name, "pagedown") {
        Some(0x22)
    } else if same(name, "semicolon") {
        Some(0xBA)
    } else if same(name, "plus") {
        Some(0xBB)
    } else if same(name, "comma") {
        Some(0xBC)
    } else if same(name, "minus") {
        Some(0xBD)
    } else if same(name, "period") {
        Some(0xBE)
    } else if same(name, "slash") {
        Some(0xBF)
    } else if same(name, "grave") {
        Some(0xC0)
    } else if same(name, "bracketleft") {
        Some(0xDB)
    } else if same(name, "backslash") {
        Some(0xDC)
    } else if same(name, "bracketright") {
        Some(0xDD)
    } else if same(name, "apostrophe") {
        Some(0xDE)
    } else {
        None
    }
}

proof fn lemma_f_prefix(name: Seq<char>)
    ensures
        "f"@.len() == 1,
        starts_with(name, "f"@) <==> name.len() > 0 && name[0] == 'f',
{
    reveal_strlit("f");
    if starts_with(name, "f"@) {
        assert(name.subrange(0, 1)[0] == name[0]);
    } else if name.len() > 0 && name[0] == 'f' {
        assert(name.subrange(0, 1) =~= "f"@);
    }
}

/// Virtual-key code of a key.
pub fn key_to_vk(key: &Key) -> (r: Result<u16, Error>)
    ensures
        match r {
            Ok(vk) => virtual_key(key.0@) == Parsed::Value(vk),
            Err(e) => virtual_key(key.0@) matches Parsed::Rejected(m) && is_config_error(e, m),
        },
{
    let name = key.0.as_str();
    let cs = chars_of(name);
    if cs.len() == 1 {
        let c = cs[0];
        if 'a' <= c && c <= 'z' {
            return Ok((c as u32 - 32) as u16);
        }
        if ('A' <= c && c <= 'Z') || ('0' <= c && c <= '9') {
            return Ok(c as u32 as u16);
        }
    }
    proof {
        lemma_f_prefix(name@);
    }
    match strip_prefix(&cs, "f") {
        Some(rest) => {
            match parse_number(&rest, 10, 255) {
                Some(n) => {
                    if 1 <= n && n <= 12 {
                        return Ok((0x6F + n) as u16);
                    }
                },
                None => {},
            }
        },
        None => {},
    }
    match listed(name) {
        Some(vk) => Ok(vk),
        None => Err(Error::Config(joined("unsupported key: ", name))),
    }
}

// ── The binding table ────────────────────────────────────────────────────────

/// One key press to look out for.
#[derive(Debug, Clone, Copy, PartialEq, Eq, Structural)]
pub struct HotkeyEntry {
    pub id: KeybindingId,
    pub vk: u16,
    pub mods: u32,
}

/// The entry of a binding, if its key has a code.
pub open spec fn entry_of(b: Binding) -> Option<HotkeyEntry> {
    match virtual_key(b.combo.1) {
        Parsed::Value(vk) => Some(
            HotkeyEntry { id: b.id, vk, mods: modifier_bits(b.combo.0) as u32 },
        ),
        Parsed::Rejected(_) => None,
    }
}

/// The entries of all bindings whose keys have codes, in order.
pub open spec fn entries_of(bs: Seq<Binding>) -> Seq<HotkeyEntry>
    decreases bs.len(),
{
    if bs.len() == 0 {
        seq![]
    } else {
        match entry_of(bs.last()) {
            Some(e) => entries_of(bs.drop_last()).push(e),
            None => entries_of(bs.drop_last()),
        }
    }
}

/// Among the first `n` entries, the first for a key press.
pub open spec fn matching_entry(es: Seq<HotkeyEntry>, vk: u16, mods: u32, n: int) -> Option<
    HotkeyEntry,
>
    decreases n,
{
    if n <= 0 {
        None
    } else if let Some(e) = matching_entry(es, vk, mods, n - 1) {
        Some(e)
    } else if es[n - 1].vk == vk && es[n - 1].mods == mods {
        Some(es[n - 1])
    } else {
        None
    }
}

/// A message of the keyboard hook reports a key going down.
pub open spec fn is_key_down(code: i32, message: u32) -> bool {
    code >= 0 && (message == WM_KEYDOWN || message == WM_SYSKEYDOWN)
}

/// The key presses that the keyboard hook looks out for.
#[derive(Debug)]
pub struct HotkeyManager {
    pub entries: Vec<HotkeyEntry>,
}

impl HotkeyManager {
    /// Build the table of key presses.  A binding whose key has no code on this
    /// platform is left out.
    pub fn register(map: &BindingMap) -> (r: Result<Self, Error>)
        ensures
            r matches Ok(m) && m.entries@ == entries_of(map@),
    {
        let all = map.iter();
        let ghost bs = map@;
        let mut entries: Vec<HotkeyEntry> = Vec::new();
        let mut i: usize = 0;
        assert(bs.take(0) =~= Seq::<Binding>::empty());
        while i < all.len()
            invariant
                i <= all@.len(),
                all@.len() == bs.len(),
                forall|j: int|
                    0 <= j < all@.len() ==> {
                        &&& (#[trigger] all@[j]).0 == bs[j].id
                        &&& all@[j].1@ == bs[j].combo
                        &&& *all@[j].2 == bs[j].action
                    },
                entries@ == entries_of(bs.take(i as int)),
            decreases all@.len() - i,
        {
            let id = all[i].0;
            let combo: &KeyCombo = all[i].1;
            assert(bs.take(i + 1).drop_last() =~= bs.take(i as int));
            assert(bs.take(i + 1).last() == bs[i as int]);
            assert(all@[i as int].1@ == bs[i as int].combo);
            match key_to_vk(&combo.key) {
                Ok(vk) => {
                    entries.push(HotkeyEntry { id, vk, mods: mods_to_bits(combo.modifiers) });
                },
                Err(_) => {},
            }
            i += 1;
        }
        assert(bs.take(i as int) =~= bs);
        Ok(HotkeyManager { entries })
    }

    /// The binding that a report of the hook procedure names.
    pub fn resolve(wparam: usize) -> (r: KeybindingId)
        ensures
            r.0 == wparam as int % 0x1_0000_0000,
            wparam <= u32::MAX ==> r.0 == wparam,
    {
        let low: u64 = wparam as u64;
        assert(low as u32 == low % 0x1_0000_0000) by (bit_vector);
        KeybindingId(low as u32)
    }

    /// What the keyboard hook does with a message: the binding to report, in
    /// which case the key is consumed, or nothing.
    pub fn on_key(&self, code: i32, message: u32, vk: u16, held: HeldKeys) -> (r: Option<
        KeybindingId,
    >)
        ensures
            match r {
                Some(id) => is_key_down(code, message) && (matching_entry(
                    self.entries@,
                    vk,
                    modifier_bits(held_modifiers(held)) as u32,
                    self.entries@.len() as int,
                ) matches Some(e) && e.id == id),
                None => !is_key_down(code, message) || matching_entry(
                    self.entries@,
                    vk,
                    modifier_bits(held_modifiers(held)) as u32,
                    self.entries@.len() as int,
                ) is None,
            },
    {
        if !(code >= 0 && (message == WM_KEYDOWN || message == WM_SYSKEYDOWN)) {
            return None;
        }
        let mods = mods_to_bits(pressed_modifiers(held));
        let mut i: usize = 0;
        while i < self.entries.len()
            invariant
                i <= self.entries@.len(),
                is_key_down(code, message),
                mods == modifier_bits(held_modifiers(held)),
                matching_entry(self.entries@, vk, mods, i as int) is None,
            decreases self.entries@.len() - i,
        {
            let e = self.entries[i];
            if e.vk == vk && e.mods == mods {
                proof {
                    lemma_matching_stays(
                        self.entries@,
                        vk,
                        mods,
                        i + 1,
                        self.entries@.len() as int,
                    );
                }
                return Some(e.id);
            }
            i += 1;
        }
        None
    }
}

proof fn lemma_matching_stays(es: Seq<HotkeyEntry>, vk: u16, mods: u32, k: int, n: int)
    requires
        k <= n,
        matching_entry(es, vk, mods, k) is Some,
    ensures
        matching_entry(es, vk, mods, n) == matching_entry(es, vk, mods, k),
    decreases n,
{
    if k < n {
        lemma_matching_stays(es, vk, mods, k, n - 1);
    }
}

proof fn lemma_entry_sources(bs: Seq<Binding>, i: int)
    requires
        0 <= i < entries_of(bs).len(),
    ensures
        exists|j: int| 0 <= j < bs.len() && entry_of(#[trigger] bs[j]) == Some(entries_of(bs)[i]),
    decreases bs.len(),
{
    if i == entries_of(bs).len() - 1 && entry_of(bs.last()) is Some {
        assert(entry_of(bs[bs.len() - 1]) == Some(entries_of(bs)[i]));
    } else {
        let rest = bs.drop_last();
        lemma_entry_sources(rest, i);
        let j = choose|j: int|
            0 <= j < rest.len() && entry_of(#[trigger] rest[j]) == Some(entries_of(rest)[i]);
        assert(bs[j] == rest[j]);
    }
}

proof fn lemma_matching_from(es: Seq<HotkeyEntry>, vk: u16, mods: u32, n: int)
    requires
        n <= es.len(),
    ensures
        matching_entry(es, vk, mods, n) matches Some(e) ==> e.vk == vk && e.mods == mods
            && exists|i: int| 0 <= i < n && #[trigger] es[i] == e,
        matching_entry(es, vk, mods, n) is None ==> forall|i: int|
            0 <= i < n ==> !((#[trigger] es[i]).vk == vk && es[i].mods == mods),
    decreases n,
{
    if n > 0 {
        lemma_matching_from(es, vk, mods, n - 1);
        if matching_entry(es, vk, mods, n - 1) is None && matching_entry(es, vk, mods, n) is Some {
            assert(es[n - 1] == matching_entry(es, vk, mods, n)->0);
        }
    }
}

/// A key press fires a binding only if that declares exactly the modifiers that
/// are held, and a key with the code of the one pressed.
pub proof fn presses_fire_what_they_declare(bs: Seq<Binding>, vk: u16, held: Modifiers)
    ensures
        matching_entry(
            entries_of(bs),
            vk,
            modifier_bits(held) as u32,
            entries_of(bs).len() as int,
        ) matches Some(e) ==> exists|j: int|
            0 <= j < bs.len() && (#[trigger] bs[j]).id == e.id && bs[j].combo.0 == held
                && virtual_key(bs[j].combo.1) == Parsed::Value(vk),
{
    let es = entries_of(bs);
    let n = es.len() as int;
    lemma_matching_from(es, vk, modifier_bits(held) as u32, n);
    if matching_entry(es, vk, modifier_bits(held) as u32, n) is Some {
        let e = matching_entry(es, vk, modifier_bits(held) as u32, n)->0;
        let i = choose|i: int| 0 <= i < n && #[trigger] es[i] == e;
        lemma_entry_sources(bs, i);
        let j = choose|j: int| 0 <= j < bs.len() && entry_of(#[trigger] bs[j]) == Some(es[i]);
        modifier_bits_are_unique(bs[j].combo.0, held);
        assert(bs[j].id == e.id);
    }
}

proof fn lemma_entry_kept(bs: Seq<Binding>, j: int)
    requires
        0 <= j < bs.len(),
        entry_of(bs[j]) is Some,
    ensures
        exists|i: int| 0 <= i < entries_of(bs).len() && #[trigger] entries_of(bs)[i] == entry_of(
            bs[j],
        )->0,
    decreases bs.len(),
{
    if j == bs.len() - 1 {
        assert(entries_of(bs)[entries_of(bs).len() - 1] == entry_of(bs[j])->0);
    } else {
        let rest = bs.drop_last();
        assert(rest[j] == bs[j]);
        lemma_entry_kept(rest, j);
        let i = choose|i: int|
            0 <= i < entries_of(rest).len() && #[trigger] entries_of(rest)[i] == entry_of(
                rest[j],
            )->0;
        assert(entries_of(bs)[i] == entries_of(rest)[i]);
    }
}

/// Every binding whose key has a code can be fired: a press of its key with
/// exactly its modifiers fires some binding.
pub proof fn declared_keys_fire(bs: Seq<Binding>, j: int, vk: u16)
    requires
        0 <= j < bs.len(),
        virtual_key(bs[j].combo.1) == Parsed::Value(vk),
    ensures
        matching_entry(
            entries_of(bs),
            vk,
            modifier_bits(bs[j].combo.0) as u32,
            entries_of(bs).len() as int,
        ) is Some,
{
    let es = entries_of(bs);
    let mods = modifier_bits(bs[j].combo.0) as u32;
    lemma_entry_kept(bs, j);
    let i = choose|i: int| 0 <= i < es.len() && #[trigger] es[i] == entry_of(bs[j])->0;
    lemma_matching_from(es, vk, mods, es.len() as int);
    assert(es[i].vk == vk && es[i].mods == mods);
}

} // verus!
