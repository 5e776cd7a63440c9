//! The built-in keybindings can be used as they are.

use crate::action::{action_string, action_string_parses_back, action_valid, Action, Parsed};
use crate::config::{alt_binding, alt_shift_binding, default_bindings, BindingText};
use crate::hotkey::{
    first_binding, no_modifiers, parse_binding, parse_bindings, parse_modifiers, Modifiers,
};
use crate::key_laws::binding_ids_are_positions;
use crate::layout::LayoutKind;
use crate::text::{decimal, lower};
use vstd::prelude::*;

verus! {

proof fn lemma_modifiers()
    ensures
        parse_modifiers(seq!["alt"@]) == Parsed::Value(Modifiers { alt: true, ..no_modifiers() }),
        parse_modifiers(seq!["alt"@, "shift"@]) == Parsed::Value(
            Modifiers { alt: true, shift: true, ..no_modifiers() },
        ),
{
    reveal_strlit("alt");
    reveal_strlit("shift");
    reveal_strlit("ctrl");
    reveal_strlit("control");
    assert(lower("alt"@) =~= "alt"@);
    assert(lower("shift"@) =~= "shift"@);
    assert("shift"@.len() == 5 && "alt"@.len() == 3 && "ctrl"@.len() == 4 && "control"@.len() == 7);
    let one = seq!["alt"@];
    let two = seq!["alt"@, "shift"@];
    assert(one.drop_last() =~= Seq::<Seq<char>>::empty());
    assert(two.drop_last() =~= one);
    assert(parse_modifiers(one.drop_last()) == Parsed::Value(no_modifiers()));
}

/// Declaration `i` with the key `key` and the string of `action` compiles.
proof fn lemma_declaration(i: int, key: Seq<char>, text: Seq<char>, action: Action)
    requires
        key.len() > 0,
        lower(key) == key,
        text == action_string(action),
        action_valid(action),
    ensures
        parse_binding(i, alt_binding(key, text)) matches Parsed::Value(b) && b.combo == (
            Modifiers { alt: true, ..no_modifiers() },
            key,
        ) && b.action == action,
        parse_binding(i, alt_shift_binding(key, text)) matches Parsed::Value(b) && b.combo == (
            Modifiers { alt: true, shift: true, ..no_modifiers() },
            key,
        ) && b.action == action,
{
    lemma_modifiers();
    action_string_parses_back(action);
}

/// Where the built-in keybinding for a key stands, with Shift and without.
spec fn place_of(combo: (Modifiers, Seq<char>)) -> int {
    let c = combo.1[0];
    if combo.0.shift {
        match c {
            'h' => 2,
            'l' => 3,
            'q' => 4,
            's' => 6,
            '1' => 21,
            '2' => 22,
            '3' => 23,
            '4' => 24,
            '5' => 25,
            '6' => 26,
            '7' => 27,
            '8' => 28,
            '9' => 29,
            'r' => 30,
            'e' => 31,
            _ => -1,
        }
    } else {
        match c {
            'h' => 0,
            'l' => 1,
            'f' => 5,
            'g' => 7,
            't' => 8,
            'm' => 9,
            'c' => 10,
            'u' => 11,
            '1' => 12,
            '2' => 13,
            '3' => 14,
            '4' => 15,
            '5' => 16,
            '6' => 17,
            '7' => 18,
            '8' => 19,
            '9' => 20,
            _ => -1,
        }
    }
}

/// Declaration `i` compiles, with Alt, to the combination that stands there.
#[verifier::opaque]
spec fn usable(kbs: Seq<BindingText>, i: int) -> bool {
    parse_binding(i, kbs[i]) matches Parsed::Value(b) && b.combo.0.alt && place_of(b.combo) == i
}

proof fn lemma_commands()
    ensures
        usable(default_bindings(), 0),
        usable(default_bindings(), 1),
        usable(default_bindings(), 2),
        usable(default_bindings(), 3),
        usable(default_bindings(), 4),
        usable(default_bindings(), 5),
        usable(default_bindings(), 6),
        usable(default_bindings(), 7),
        usable(default_bindings(), 8),
        usable(default_bindings(), 9),
        usable(default_bindings(), 10),
        usable(default_bindings(), 11),
        usable(default_bindings(), 30),
        usable(default_bindings(), 31),
{
    reveal(usable);
    let all = default_bindings();
    reveal_strlit("h");
    assert("h"@[0] == 'h');
    assert(lower("h"@) =~= "h"@);
    assert(all[0] == alt_binding("h"@, "focus_prev"@));
    lemma_declaration(0, "h"@, "focus_prev"@, Action::FocusPrev);
    reveal_strlit("l");
    assert("l"@[0] == 'l');
    assert(lower("l"@) =~= "l"@);
    assert(all[1] == alt_binding("l"@, "focus_next"@));
    lemma_declaration(1, "l"@, "focus_next"@, Action::FocusNext);
    assert(all[2] == alt_shift_binding("h"@, "move_prev"@));
    lemma_declaration(2, "h"@, "move_prev"@, Action::MovePrev);
    assert(all[3] == alt_shift_binding("l"@, "move_next"@));
    lemma_declaration(3, "l"@, "move_next"@, Action::MoveNext);
    reveal_strlit("q");
    assert("q"@[0] == 'q');
    assert(lower("q"@) =~= "q"@);
    assert(all[4] == alt_shift_binding("q"@, "kill_focused"@));
    lemma_declaration(4, "q"@, "kill_focused"@, Action::KillFocused);
    reveal_strlit("f");
    assert("f"@[0] == 'f');
    assert(lower("f"@) =~= "f"@);
    assert(all[5] == alt_binding("f"@, "toggle_fullscreen"@));
    lemma_declaration(5, "f"@, "toggle_fullscreen"@, Action::ToggleFullscreen);
    reveal_strlit("space");
    assert("space"@[0] == 's');
    assert(lower("space"@) =~= "space"@);
    assert(all[6] == alt_shift_binding("space"@, "toggle_float"@));
    lemma_declaration(6, "space"@, "toggle_float"@, Action::ToggleFloat);
    reveal_strlit("g");
    assert("g"@[0] == 'g');
    assert(lower("g"@) =~= "g"@);
    assert(all[7] == alt_binding("g"@, "set_layout:fibonacci"@));
    lemma_declaration(7, "g"@, "set_layout:fibonacci"@, Action::SetLayout(LayoutKind::Fibonacci));
    reveal_strlit("t");
    assert("t"@[0] == 't');
    assert(lower("t"@) =~= "t"@);
    assert(all[8] == alt_binding("t"@, "set_layout:bsp"@));
    lemma_declaration(8, "t"@, "set_layout:bsp"@, Action::SetLayout(LayoutKind::Bsp));
    reveal_strlit("m");
    assert("m"@[0] == 'm');
    assert(lower("m"@) =~= "m"@);
    assert(all[9] == alt_binding("m"@, "set_layout:monocle"@));
    lemma_declaration(9, "m"@, "set_layout:monocle"@, Action::SetLayout(LayoutKind::Monocle));
    reveal_strlit("c");
    assert("c"@[0] == 'c');
    assert(lower("c"@) =~= "c"@);
    reveal_strlit("set_layout:columns:");
    reveal_strlit("set_layout:columns:2");
    assert("set_layout:columns:2"@ =~= "set_layout:columns:"@ + decimal(2));
    assert(all[10] == alt_binding("c"@, "set_layout:columns:2"@));
    lemma_declaration(10, "c"@, "set_layout:columns:2"@, Action::SetLayout(LayoutKind::Columns { count: 2 }));
    reveal_strlit("u");
    assert("u"@[0] == 'u');
    assert(lower("u"@) =~= "u"@);
    assert(all[11] == alt_binding("u"@, "set_layout:center_main"@));
    lemma_declaration(11, "u"@, "set_layout:center_main"@, Action::SetLayout(LayoutKind::CenterMain));
    reveal_strlit("r");
    assert("r"@[0] == 'r');
    assert(lower("r"@) =~= "r"@);
    assert(all[30] == alt_shift_binding("r"@, "reload_config"@));
    lemma_declaration(30, "r"@, "reload_config"@, Action::ReloadConfig);
    reveal_strlit("e");
    assert("e"@[0] == 'e');
    assert(lower("e"@) =~= "e"@);
    assert(all[31] == alt_shift_binding("e"@, "quit"@));
    lemma_declaration(31, "e"@, "quit"@, Action::Quit);
}

proof fn lemma_switches()
    ensures
        usable(default_bindings(), 12),
        usable(default_bindings(), 13),
        usable(default_bindings(), 14),
        usable(default_bindings(), 15),
        usable(default_bindings(), 16),
        usable(default_bindings(), 17),
        usable(default_bindings(), 18),
        usable(default_bindings(), 19),
        usable(default_bindings(), 20),
{
    reveal(usable);
    let all = default_bindings();
    reveal_strlit("1");
    assert("1"@[0] == '1');
    assert(lower("1"@) =~= "1"@);
    reveal_strlit("switch_workspace:");
    reveal_strlit("switch_workspace:1");
    assert("switch_workspace:1"@ =~= "switch_workspace:"@ + decimal(1));
    assert(all[12] == alt_binding("1"@, "switch_workspace:1"@));
    lemma_declaration(12, "1"@, "switch_workspace:1"@, Action::SwitchWorkspace(1));
    reveal_strlit("2");
    assert("2"@[0] == '2');
    assert(lower("2"@) =~= "2"@);
    reveal_strlit("switch_workspace:2");
    assert("switch_workspace:2"@ =~= "switch_workspace:"@ + decimal(2));
    assert(all[13] == alt_binding("2"@, "switch_workspace:2"@));
    lemma_declaration(13, "2"@, "switch_workspace:2"@, Action::SwitchWorkspace(2));
    reveal_strlit("3");
    assert("3"@[0] == '3');
    assert(lower("3"@) =~= "3"@);
    reveal_strlit("switch_workspace:3");
    assert("switch_workspace:3"@ =~= "switch_workspace:"@ + decimal(3));
    assert(all[14] == alt_binding("3"@, "switch_workspace:3"@));
    lemma_declaration(14, "3"@, "switch_workspace:3"@, Action::SwitchWorkspace(3));
    reveal_strlit("4");
    assert("4"@[0] == '4');
    assert(lower("4"@) =~= "4"@);
    reveal_strlit("switch_workspace:4");
    assert("switch_workspace:4"@ =~= "switch_workspace:"@ + decimal(4));
    assert(all[15] == alt_binding("4"@, "switch_workspace:4"@));
    lemma_declaration(15, "4"@, "switch_workspace:4"@, Action::SwitchWorkspace(4));
    reveal_strlit("5");
    assert("5"@[0] == '5');
    assert(lower("5"@) =~= "5"@);
    reveal_strlit("switch_workspace:5");
    assert("switch_workspace:5"@ =~= "switch_workspace:"@ + decimal(5));
    assert(all[16] == alt_binding("5"@, "switch_workspace:5"@));
    lemma_declaration(16, "5"@, "switch_workspace:5"@, Action::SwitchWorkspace(5));
    reveal_strlit("6");
    assert("6"@[0] == '6');
    assert(lower("6"@) =~= "6"@);
    reveal_strlit("switch_workspace:6");
    assert("switch_workspace:6"@ =~= "switch_workspace:"@ + decimal(6));
    assert(all[17] == alt_binding("6"@, "switch_workspace:6"@));
    lemma_declaration(17, "6"@, "switch_workspace:6"@, Action::SwitchWorkspace(6));
    reveal_strlit("7");
    assert("7"@[0] == '7');
    assert(lower("7"@) =~= "7"@);
    reveal_strlit("switch_workspace:7");
    assert("switch_workspace:7"@ =~= "switch_workspace:"@ + decimal(7));
    assert(all[18] == alt_binding("7"@, "switch_workspace:7"@));
    lemma_declaration(18, "7"@, "switch_workspace:7"@, Action::SwitchWorkspace(7));
    reveal_strlit("8");
    assert("8"@[0] == '8');
    assert(lower("8"@) =~= "8"@);
    reveal_strlit("switch_workspace:8");
    assert("switch_workspace:8"@ =~= "switch_workspace:"@ + decimal(8));
    assert(all[19] == alt_binding("8"@, "switch_workspace:8"@));
    lemma_declaration(19, "8"@, "switch_workspace:8"@, Action::SwitchWorkspace(8));
    reveal_strlit("9");
    assert("9"@[0] == '9');
    assert(lower("9"@) =~= "9"@);
    reveal_strlit("switch_workspace:9");
    assert("switch_workspace:9"@ =~= "switch_workspace:"@ + decimal(9));
    assert(all[20] == alt_binding("9"@, "switch_workspace:9"@));
    lemma_declaration(20, "9"@, "switch_workspace:9"@, Action::SwitchWorkspace(9));
}

proof fn lemma_sends()
    ensures
        usable(default_bindings(), 21),
        usable(default_bindings(), 22),
        usable(default_bindings(), 23),
        usable(default_bindings(), 24),
        usable(default_bindings(), 25),
        usable(default_bindings(), 26),
        usable(default_bindings(), 27),
        usable(default_bindings(), 28),
        usable(default_bindings(), 29),
{
    reveal(usable);
    let all = default_bindings();
    reveal_strlit("1");
    assert("1"@[0] == '1');
    assert(lower("1"@) =~= "1"@);
    reveal_strlit("move_to_workspace:");
    reveal_strlit("move_to_workspace:1");
    assert("move_to_workspace:1"@ =~= "move_to_workspace:"@ + decimal(1));
    assert(all[21] == alt_shift_binding("1"@, "move_to_workspace:1"@));
    lemma_declaration(21, "1"@, "move_to_workspace:1"@, Action::MoveFocusedToWorkspace(1));
    reveal_strlit("2");
    assert("2"@[0] == '2');
    assert(lower("2"@) =~= "2"@);
    reveal_strlit("move_to_workspace:2");
    assert("move_to_workspace:2"@ =~= "move_to_workspace:"@ + decimal(2));
    assert(all[22] == alt_shift_binding("2"@, "move_to_workspace:2"@));
    lemma_declaration(22, "2"@, "move_to_workspace:2"@, Action::MoveFocusedToWorkspace(2));
    reveal_strlit("3");
    assert("3"@[0] == '3');
    assert(lower("3"@) =~= "3"@);
    reveal_strlit("move_to_workspace:3");
    assert("move_to_workspace:3"@ =~= "move_to_workspace:"@ + decimal(3));
    assert(all[23] == alt_shift_binding("3"@, "move_to_workspace:3"@));
    lemma_declaration(23, "3"@, "move_to_workspace:3"@, Action::MoveFocusedToWorkspace(3));
    reveal_strlit("4");
    assert("4"@[0] == '4');
    assert(lower("4"@) =~= "4"@);
    reveal_strlit("move_to_workspace:4");
    assert("move_to_workspace:4"@ =~= "move_to_workspace:"@ + decimal(4));
    assert(all[24] == alt_shift_binding("4"@, "move_to_workspace:4"@));
    lemma_declaration(24, "4"@, "move_to_workspace:4"@, Action::MoveFocusedToWorkspace(4));
    reveal_strlit("5");
    assert("5"@[0] == '5');
    assert(lower("5"@) =~= "5"@);
    reveal_strlit("move_to_workspace:5");
    assert("move_to_workspace:5"@ =~= "move_to_workspace:"@ + decimal(5));
    assert(all[25] == alt_shift_binding("5"@, "move_to_workspace:5"@));
    lemma_declaration(25, "5"@, "move_to_workspace:5"@, Action::MoveFocusedToWorkspace(5));
    reveal_strlit("6");
    assert("6"@[0] == '6');
    assert(lower("6"@) =~= "6"@);
    reveal_strlit("move_to_workspace:6");
    assert("move_to_workspace:6"@ =~= "move_to_workspace:"@ + decimal(6));
    assert(all[26] == alt_shift_binding("6"@, "move_to_workspace:6"@));
    lemma_declaration(26, "6"@, "move_to_workspace:6"@, Action::MoveFocusedToWorkspace(6));
    reveal_strlit("7");
    assert("7"@[0] == '7');
    assert(lower("7"@) =~= "7"@);
    reveal_strlit("move_to_workspace:7");
    assert("move_to_workspace:7"@ =~= "move_to_workspace:"@ + decimal(7));
    assert(all[27] == alt_shift_binding("7"@, "move_to_workspace:7"@));
    lemma_declaration(27, "7"@, "move_to_workspace:7"@, Action::MoveFocusedToWorkspace(7));
    reveal_strlit("8");
    assert("8"@[0] == '8');
    assert(lower("8"@) =~= "8"@);
    reveal_strlit("move_to_workspace:8");
    assert("move_to_workspace:8"@ =~= "move_to_workspace:"@ + decimal(8));
    assert(all[28] == alt_shift_binding("8"@, "move_to_workspace:8"@));
    lemma_declaration(28, "8"@, "move_to_workspace:8"@, Action::MoveFocusedToWorkspace(8));
    reveal_strlit("9");
    assert("9"@[0] == '9');
    assert(lower("9"@) =~= "9"@);
    reveal_strlit("move_to_workspace:9");
    assert("move_to_workspace:9"@ =~= "move_to_workspace:"@ + decimal(9));
    assert(all[29] == alt_shift_binding("9"@, "move_to_workspace:9"@));
    lemma_declaration(29, "9"@, "move_to_workspace:9"@, Action::MoveFocusedToWorkspace(9));
}

/// Declarations that all compile, compile together.
proof fn lemma_all_compile(kbs: Seq<BindingText>, n: int)
    requires
        0 <= n <= kbs.len(),
        forall|i: int| 0 <= i < kbs.len() ==> (#[trigger] parse_binding(i, kbs[i])) is Value,
    ensures
        parse_bindings(kbs.take(n)) matches Parsed::Value(bs) && bs.len() == n && forall|i: int|
            0 <= i < n ==> Parsed::Value(#[trigger] bs[i]) == parse_binding(i, kbs[i]),
    decreases n,
{
    if n > 0 {
        lemma_all_compile(kbs, n - 1);
        assert(kbs.take(n).drop_last() =~= kbs.take(n - 1));
        assert(kbs.take(n).last() == kbs[n - 1]);
        assert(parse_binding(n - 1, kbs[n - 1]) is Value);
    }
}

/// The compiled table of usable declarations.
proof fn lemma_usable_table(kbs: Seq<BindingText>)
    requires
        kbs.len() <= u32::MAX,
        forall|i: int| 0 <= i < kbs.len() ==> #[trigger] usable(kbs, i),
    ensures
        table_is_usable(kbs),
{
    reveal(usable);
    assert forall|i: int| 0 <= i < kbs.len() implies (#[trigger] parse_binding(
        i,
        kbs[i],
    )) is Value by {
        assert(usable(kbs, i));
    }
    lemma_all_compile(kbs, kbs.len() as int);
    assert(kbs.take(kbs.len() as int) =~= kbs);
    let bs = parse_bindings(kbs)->Value_0;
    binding_ids_are_positions(kbs, bs);
    assert forall|i: int| 0 <= i < bs.len() implies (#[trigger] bs[i]).combo.0.alt && place_of(
        bs[i].combo,
    ) == i by {
        assert(usable(kbs, i));
        assert(Parsed::Value(bs[i]) == parse_binding(i, kbs[i]));
    }
    assert forall|i: int, j: int| 0 <= i < j < bs.len() implies (#[trigger] bs[i]).combo != (
    #[trigger] bs[j]).combo by {
        assert(place_of(bs[i].combo) == i && place_of(bs[j].combo) == j);
    }
}

proof fn lemma_each_usable(kbs: Seq<BindingText>, i: int)
    requires
        usable(kbs, 0),
        usable(kbs, 1),
        usable(kbs, 2),
        usable(kbs, 3),
        usable(kbs, 4),
        usable(kbs, 5),
        usable(kbs, 6),
        usable(kbs, 7),
        usable(kbs, 8),
        usable(kbs, 9),
        usable(kbs, 10),
        usable(kbs, 11),
        usable(kbs, 12),
        usable(kbs, 13),
        usable(kbs, 14),
        usable(kbs, 15),
        usable(kbs, 16),
        usable(kbs, 17),
        usable(kbs, 18),
        usable(kbs, 19),
        usable(kbs, 20),
        usable(kbs, 21),
        usable(kbs, 22),
        usable(kbs, 23),
        usable(kbs, 24),
        usable(kbs, 25),
        usable(kbs, 26),
        usable(kbs, 27),
        usable(kbs, 28),
        usable(kbs, 29),
        usable(kbs, 30),
        usable(kbs, 31),
        0 <= i < 32,
    ensures
        usable(kbs, i),
{
}

proof fn lemma_default_count()
    ensures
        default_bindings().len() == 32,
{
}

/// All of `kbs` compile; every one of them holds Alt; no two share a
/// combination, so that the combination of each leads to it.
pub open spec fn table_is_usable(kbs: Seq<BindingText>) -> bool {
    parse_bindings(kbs) matches Parsed::Value(bs) && {
        &&& bs.len() == kbs.len()
        &&& forall|i: int| 0 <= i < bs.len() ==> (#[trigger] bs[i]).combo.0.alt
        &&& forall|i: int, j: int|
            0 <= i < j < bs.len() ==> (#[trigger] bs[i]).combo != (#[trigger] bs[j]).combo
        &&& forall|i: int|
            0 <= i < bs.len() ==> (#[trigger] bs[i]).id.0 == i && first_binding(
                bs,
                bs[i].combo,
                i,
            )
    }
}

/// The built-in keybindings compile; every one of them holds Alt; no two share a
/// combination, so that pressing one fires it and no other.
pub proof fn default_bindings_are_usable()
    ensures
        table_is_usable(default_bindings()),
{
    let kbs = default_bindings();
    lemma_default_count();
    lemma_commands();
    lemma_switches();
    lemma_sends();
    assert forall|i: int| 0 <= i < kbs.len() implies #[trigger] usable(kbs, i) by {
        lemma_each_usable(kbs, i);
    }
    lemma_usable_table(kbs);
}

} // verus!
