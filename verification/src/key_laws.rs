//! What holds of keybindings and key names on every platform.

use crate::action::{parse_action, Parsed};
use crate::config::BindingText;
use crate::event::KeybindingId;
use crate::hotkey::{
    first_binding, parse_bindings, parse_key, parse_modifiers, Binding, Modifiers,
};
use crate::keyname_laws::{keycode_names_are_lowercase, keysym_names_are_lowercase};
use crate::keynames::{char_key, function_key};
use crate::macos::hotkeys::keycode_name;
use crate::text::{
    decimal, decimal_parses_back, lemma_decimal_value, lower, lower_char, starts_with,
};
use crate::wayland::input::keysym_name;
use crate::windows::hotkeys::{listed_key, virtual_key};
use vstd::prelude::*;

verus! {

/// Every declaration becomes one binding, in order, and a binding's identifier
/// is its place: looking up the action of a fired identifier finds the
/// declaration that it came from.
pub proof fn binding_ids_are_positions(kbs: Seq<BindingText>, bs: Seq<Binding>)
    requires
        parse_bindings(kbs) == Parsed::Value(bs),
    ensures
        bs.len() == kbs.len(),
        forall|i: int|
            0 <= i < bs.len() && i <= u32::MAX ==> (#[trigger] bs[i]).id == KeybindingId(i as u32),
    decreases kbs.len(),
{
    if kbs.len() > 0 {
        let before = parse_bindings(kbs.drop_last())->Value_0;
        assert(bs.drop_last() =~= before);
        binding_ids_are_positions(kbs.drop_last(), bs.drop_last());
        assert forall|i: int| 0 <= i < bs.len() && i <= u32::MAX implies (#[trigger] bs[i]).id
            == KeybindingId(i as u32) by {
            if i < bs.len() - 1 {
                assert(bs[i] == bs.drop_last()[i]);
            }
        }
    }
}

/// Each binding holds what its declaration says: those modifiers, that key in
/// lower case, that action.
pub proof fn bindings_hold_what_is_declared(kbs: Seq<BindingText>, bs: Seq<Binding>, i: int)
    requires
        parse_bindings(kbs) == Parsed::Value(bs),
        0 <= i < kbs.len(),
    ensures
        bs.len() == kbs.len(),
        parse_modifiers(kbs[i].modifiers) == Parsed::Value(bs[i].combo.0),
        kbs[i].key.len() > 0,
        bs[i].combo.1 == lower(kbs[i].key),
        parse_action(kbs[i].action) == Parsed::Value(bs[i].action),
    decreases kbs.len(),
{
    let rest = kbs.drop_last();
    let before = parse_bindings(rest)->Value_0;
    assert(bs.drop_last() =~= before);
    binding_ids_are_positions(kbs, bs);
    if i < kbs.len() - 1 {
        assert(rest[i] == kbs[i]);
        bindings_hold_what_is_declared(rest, before, i);
        assert(bs[i] == before[i]);
    }
}

/// Declarations are refused exactly when one of them says something unknown, and
/// the message is about the first such one, by its number.
pub proof fn the_first_bad_declaration_is_named(kbs: Seq<BindingText>, i: int)
    requires
        0 <= i < kbs.len(),
        forall|k: int|
            0 <= k < i ==> parse_modifiers((#[trigger] kbs[k]).modifiers) is Value
                && kbs[k].key.len() > 0 && parse_action(kbs[k].action) is Value,
        !(parse_modifiers(kbs[i].modifiers) is Value && kbs[i].key.len() > 0 && parse_action(
            kbs[i].action,
        ) is Value),
    ensures
        parse_bindings(kbs) matches Parsed::Rejected(m) && starts_with(
            m,
            "keybinding ["@ + decimal(i as nat) + "]: "@,
        ),
    decreases kbs.len(),
{
    let rest = kbs.drop_last();
    if i < kbs.len() - 1 {
        assert(rest[i] == kbs[i]);
        assert forall|k: int| 0 <= k < i implies parse_modifiers((#[trigger] rest[k]).modifiers)
            is Value && rest[k].key.len() > 0 && parse_action(rest[k].action) is Value by {
            assert(rest[k] == kbs[k]);
        }
        the_first_bad_declaration_is_named(rest, i);
    } else {
        lemma_good_declarations(rest);
        let m = parse_bindings(kbs)->Rejected_0;
        let head = "keybinding ["@ + decimal(i as nat) + "]: "@;
        assert(m.subrange(0, head.len() as int) =~= head);
    }
}

proof fn lemma_good_declarations(kbs: Seq<BindingText>)
    requires
        forall|k: int|
            0 <= k < kbs.len() ==> parse_modifiers((#[trigger] kbs[k]).modifiers) is Value
                && kbs[k].key.len() > 0 && parse_action(kbs[k].action) is Value,
    ensures
        parse_bindings(kbs) is Value,
    decreases kbs.len(),
{
    if kbs.len() > 0 {
        let rest = kbs.drop_last();
        assert forall|k: int| 0 <= k < rest.len() implies parse_modifiers(
            (#[trigger] rest[k]).modifiers,
        ) is Value && rest[k].key.len() > 0 && parse_action(rest[k].action) is Value by {
            assert(rest[k] == kbs[k]);
        }
        lemma_good_declarations(rest);
        assert(kbs[kbs.len() - 1] == kbs.last());
    }
}

/// A letter key has the code of its uppercase letter and a digit key that of its
/// digit; the function keys are numbered in a row.
pub proof fn virtual_keys_follow_their_names(code: int, n: int)
    requires
        'a' as int <= code <= 'z' as int || '0' as int <= code <= '9' as int,
        1 <= n <= 12,
    ensures
        'a' as int <= code ==> virtual_key(char_key(code)) == Parsed::Value((code - 32) as u16),
        code <= '9' as int ==> virtual_key(char_key(code)) == Parsed::Value(code as u16),
        virtual_key(function_key(n)) == Parsed::Value((0x70 + n - 1) as u16),
{
    let name = char_key(code);
    assert(name[0] == code as char);
    let f = function_key(n);
    reveal_strlit("f");
    lemma_decimal_value(n as nat);
    assert(f[0] == 'f');
    assert(f.skip(1) =~= decimal(n as nat));
    decimal_parses_back(n as nat, 255);
}

/// A key combination leads to the action that is declared first for it.
pub proof fn combos_lead_to_their_action(
    kbs: Seq<BindingText>,
    bs: Seq<Binding>,
    combo: (Modifiers, Seq<char>),
    i: int,
)
    requires
        parse_bindings(kbs) == Parsed::Value(bs),
        first_binding(bs, combo, i),
        i <= u32::MAX,
    ensures
        bs[bs[i].id.0 as int] == bs[i],
        bs[i].combo == combo,
{
    binding_ids_are_positions(kbs, bs);
}

/// The case of a key name does not matter.
pub proof fn key_names_ignore_case(s: Seq<char>)
    ensures
        lower(lower(s)) == lower(s),
        s.len() > 0 ==> parse_key(lower(s)) == parse_key(s),
{
    assert forall|i: int| 0 <= i < s.len() implies lower_char(lower_char(#[trigger] s[i]))
        == lower_char(s[i]) by {
        let c = s[i];
        if 'A' <= c && c <= 'Z' {
            assert(lower_char(c) as u32 == c as u32 + 32);
        }
    }
    assert(lower(lower(s)) =~= lower(s));
}

proof fn lemma_function_key(n: int)
    requires
        1 <= n <= 12,
    ensures
        virtual_key(function_key(n)) is Value,
{
    let name = function_key(n);
    reveal_strlit("f");
    lemma_decimal_value(n as nat);
    assert(name[0] == 'f');
    assert(name.skip(1) =~= decimal(n as nat));
    decimal_parses_back(n as nat, 255);
}

proof fn lemma_char_key(code: int)
    requires
        'a' as int <= code <= 'z' as int || '0' as int <= code <= '9' as int,
    ensures
        virtual_key(char_key(code)) is Value,
{
    let name = char_key(code);
    assert(name[0] == code as char);
}

/// Every keysym that has a name has one that Windows knows too, as it stands and
/// as a key, so that a configuration written for one platform works on the
/// other.
pub proof fn keysym_names_are_portable(keysym: u32)
    requires
        keysym_name(keysym) != "unknown"@,
    ensures
        virtual_key(keysym_name(keysym)) is Value,
        virtual_key(lower(keysym_name(keysym))) is Value,
{
    keysym_names_are_lowercase(keysym);
    if 0x61 <= keysym <= 0x7A || 0x30 <= keysym <= 0x39 {
        lemma_char_key(keysym as int);
    } else if 0xFFBE <= keysym <= 0xFFC9 {
        lemma_function_key(keysym - 0xFFBE + 1);
    } else {
        assert(listed_key(keysym_name(keysym)) is Some);
    }
}

/// Every virtual key code of macOS that has a name has one that Windows knows
/// too, as it stands and as a key.
pub proof fn keycode_names_are_portable(code: u16)
    requires
        keycode_name(code) != "unknown"@,
    ensures
        virtual_key(keycode_name(code)) is Value,
        virtual_key(lower(keycode_name(code))) is Value,
{
    keycode_names_are_lowercase(code);
    if keycode_name(code).len() == 1 && exists|c: int|
        ('a' as int <= c <= 'z' as int || '0' as int <= c <= '9' as int) && keycode_name(code)
            == #[trigger] char_key(c) {
        let c = choose|c: int|
            ('a' as int <= c <= 'z' as int || '0' as int <= c <= '9' as int) && keycode_name(code)
                == #[trigger] char_key(c);
        lemma_char_key(c);
    } else if exists|n: int| 1 <= n <= 12 && keycode_name(code) == #[trigger] function_key(n) {
        let n = choose|n: int| 1 <= n <= 12 && keycode_name(code) == #[trigger] function_key(n);
        lemma_function_key(n);
    } else {
        assert(listed_key(keycode_name(code)) is Some);
    }
}

} // verus!
