//! The key names of Wayland and of macOS are the same, each given once.

use crate::keynames::{char_key, function_key};
use crate::macos::hotkeys::keycode_name;
use crate::text::{decimal, digits_value, lemma_decimal_value, lower};
use crate::wayland::input::{keysym_name, named_keysym};
use vstd::prelude::*;

verus! {

/// The number of a function key's name.
spec fn function_number(name: Seq<char>) -> int {
    digits_value(name.skip(1), 10) as int
}

/// The keysym of a key that has a name of its own.
spec fn keysym_of_word(name: Seq<char>) -> u32 {
    if name == "return"@ {
        0xFF0D
    } else if name == "space"@ {
        0x0020
    } else if name == "tab"@ {
        0xFF09
    } else if name == "escape"@ {
        0xFF1B
    } else if name == "backspace"@ {
        0xFF08
    } else if name == "delete"@ {
        0xFFFF
    } else if name == "up"@ {
        0xFF52
    } else if name == "down"@ {
        0xFF54
    } else if name == "left"@ {
        0xFF51
    } else if name == "right"@ {
        0xFF53
    } else if name == "home"@ {
        0xFF50
    } else if name == "end"@ {
        0xFF57
    } else if name == "pageup"@ {
        0xFF55
    } else if name == "pagedown"@ {
        0xFF56
    } else if name == "semicolon"@ {
        0x003B
    } else if name == "comma"@ {
        0x002C
    } else if name == "period"@ {
        0x002E
    } else if name == "minus"@ {
        0x002D
    } else if name == "plus"@ {
        0x003D
    } else if name == "slash"@ {
        0x002F
    } else if name == "grave"@ {
        0x0060
    } else if name == "bracketleft"@ {
        0x005B
    } else if name == "bracketright"@ {
        0x005D
    } else if name == "backslash"@ {
        0x005C
    } else if name == "apostrophe"@ {
        0x0027
    } else {
        0
    }
}

/// The keysym that a key name belongs to.
spec fn keysym_of(name: Seq<char>) -> u32 {
    if name.len() == 1 {
        name[0] as u32
    } else if name[0] == 'f' {
        (0xFFBE + function_number(name) - 1) as u32
    } else {
        keysym_of_word(name)
    }
}

/// The virtual key code of a key that types `c`.
spec fn keycode_of_char(c: char) -> u16 {
    match c {
        'a' => 0x00,
        'b' => 0x0B,
        'c' => 0x08,
        'd' => 0x02,
        'e' => 0x0E,
        'f' => 0x03,
        'g' => 0x05,
        'h' => 0x04,
        'i' => 0x22,
        'j' => 0x26,
        'k' => 0x28,
        'l' => 0x25,
        'm' => 0x2E,
        'n' => 0x2D,
        'o' => 0x1F,
        'p' => 0x23,
        'q' => 0x0C,
        'r' => 0x0F,
        's' => 0x01,
        't' => 0x11,
        'u' => 0x20,
        'v' => 0x09,
        'w' => 0x0D,
        'x' => 0x07,
        'y' => 0x10,
        'z' => 0x06,
        '0' => 0x1D,
        '1' => 0x12,
        '2' => 0x13,
        '3' => 0x14,
        '4' => 0x15,
        '5' => 0x17,
        '6' => 0x16,
        '7' => 0x1A,
        '8' => 0x1C,
        '9' => 0x19,
        _ => 0xFFFF,
    }
}

/// The virtual key code of a function key.
spec fn keycode_of_function(n: int) -> u16 {
    match n as u32 {
        1 => 0x7A,
        2 => 0x78,
        3 => 0x63,
        4 => 0x76,
        5 => 0x60,
        6 => 0x61,
        7 => 0x62,
        8 => 0x64,
        9 => 0x65,
        10 => 0x6D,
        11 => 0x67,
        12 => 0x6F,
        _ => 0xFFFF,
    }
}

/// The virtual key code of a key that has a name of its own.
spec fn keycode_of_word(name: Seq<char>) -> u16 {
    if name == "return"@ {
        0x24
    } else if name == "space"@ {
        0x31
    } else if name == "tab"@ {
        0x30
    } else if name == "escape"@ {
        0x35
    } else if name == "backspace"@ {
        0x33
    } else if name == "delete"@ {
        0x75
    } else if name == "up"@ {
        0x7E
    } else if name == "down"@ {
        0x7D
    } else if name == "left"@ {
        0x7B
    } else if name == "right"@ {
        0x7C
    } else if name == "home"@ {
        0x73
    } else if name == "end"@ {
        0x77
    } else if name == "pageup"@ {
        0x74
    } else if name == "pagedown"@ {
        0x79
    } else if name == "semicolon"@ {
        0x29
    } else if name == "comma"@ {
        0x2B
    } else if name == "period"@ {
        0x2F
    } else if name == "minus"@ {
        0x1B
    } else if name == "plus"@ {
        0x18
    } else if name == "slash"@ {
        0x2C
    } else if name == "grave"@ {
        0x32
    } else if name == "bracketleft"@ {
        0x21
    } else if name == "bracketright"@ {
        0x1E
    } else if name == "backslash"@ {
        0x2A
    } else if name == "apostrophe"@ {
        0x27
    } else {
        0
    }
}

/// The virtual key code that a key name belongs to.
spec fn keycode_of(name: Seq<char>) -> u16 {
    if name.len() == 1 {
        keycode_of_char(name[0])
    } else if name[0] == 'f' {
        keycode_of_function(function_number(name))
    } else {
        keycode_of_word(name)
    }
}

/// Whether `name` is a word that names a key.
spec fn is_word(name: Seq<char>) -> bool {
    name == "return"@
        || name == "space"@
        || name == "tab"@
        || name == "escape"@
        || name == "backspace"@
        || name == "delete"@
        || name == "up"@
        || name == "down"@
        || name == "left"@
        || name == "right"@
        || name == "home"@
        || name == "end"@
        || name == "pageup"@
        || name == "pagedown"@
        || name == "semicolon"@
        || name == "comma"@
        || name == "period"@
        || name == "minus"@
        || name == "plus"@
        || name == "slash"@
        || name == "grave"@
        || name == "bracketleft"@
        || name == "bracketright"@
        || name == "backslash"@
        || name == "apostrophe"@
}

proof fn lemma_function_number(n: int)
    requires
        1 <= n <= 12,
    ensures
        function_key(n).len() >= 2,
        function_key(n)[0] == 'f',
        function_number(function_key(n)) == n,
{
    reveal_strlit("f");
    lemma_decimal_value(n as nat);
    assert(function_key(n).skip(1) =~= decimal(n as nat));
}

/// How the words differ.
proof fn reveal_words()
    ensures
        "return"@.len() == 6 && "return"@[0] == 'r' && "return"@[1] == 'e' && "return"@[5] == 'n',
        "space"@.len() == 5 && "space"@[0] == 's' && "space"@[1] == 'p',
        "tab"@.len() == 3 && "tab"@[0] == 't' && "tab"@[1] == 'a',
        "escape"@.len() == 6 && "escape"@[0] == 'e' && "escape"@[1] == 's' && "escape"@[5] == 'e',
        "backspace"@.len() == 9 && "backspace"@[0] == 'b' && "backspace"@[1] == 'a' && "backspace"@[5] == 'p',
        "delete"@.len() == 6 && "delete"@[0] == 'd' && "delete"@[1] == 'e' && "delete"@[5] == 'e',
        "up"@.len() == 2 && "up"@[0] == 'u' && "up"@[1] == 'p',
        "down"@.len() == 4 && "down"@[0] == 'd' && "down"@[1] == 'o',
        "left"@.len() == 4 && "left"@[0] == 'l' && "left"@[1] == 'e',
        "right"@.len() == 5 && "right"@[0] == 'r' && "right"@[1] == 'i',
        "home"@.len() == 4 && "home"@[0] == 'h' && "home"@[1] == 'o',
        "end"@.len() == 3 && "end"@[0] == 'e' && "end"@[1] == 'n',
        "pageup"@.len() == 6 && "pageup"@[0] == 'p' && "pageup"@[1] == 'a' && "pageup"@[5] == 'p',
        "pagedown"@.len() == 8 && "pagedown"@[0] == 'p' && "pagedown"@[1] == 'a' && "pagedown"@[5] == 'o',
        "semicolon"@.len() == 9 && "semicolon"@[0] == 's' && "semicolon"@[1] == 'e' && "semicolon"@[5] == 'o',
        "comma"@.len() == 5 && "comma"@[0] == 'c' && "comma"@[1] == 'o',
        "period"@.len() == 6 && "period"@[0] == 'p' && "period"@[1] == 'e' && "period"@[5] == 'd',
        "minus"@.len() == 5 && "minus"@[0] == 'm' && "minus"@[1] == 'i',
        "plus"@.len() == 4 && "plus"@[0] == 'p' && "plus"@[1] == 'l',
        "slash"@.len() == 5 && "slash"@[0] == 's' && "slash"@[1] == 'l',
        "grave"@.len() == 5 && "grave"@[0] == 'g' && "grave"@[1] == 'r',
        "bracketleft"@.len() == 11 && "bracketleft"@[0] == 'b' && "bracketleft"@[1] == 'r' && "bracketleft"@[5] == 'e',
        "bracketright"@.len() == 12 && "bracketright"@[0] == 'b' && "bracketright"@[1] == 'r' && "bracketright"@[5] == 'e',
        "backslash"@.len() == 9 && "backslash"@[0] == 'b' && "backslash"@[1] == 'a' && "backslash"@[5] == 'l',
        "apostrophe"@.len() == 10 && "apostrophe"@[0] == 'a' && "apostrophe"@[1] == 'p' && "apostrophe"@[5] == 'r',
        "unknown"@.len() == 7 && "unknown"@[0] == 'u' && "unknown"@[1] == 'n' && "unknown"@[5] == 'w',
{
    reveal_strlit("return");
    reveal_strlit("space");
    reveal_strlit("tab");
    reveal_strlit("escape");
    reveal_strlit("backspace");
    reveal_strlit("delete");
    reveal_strlit("up");
    reveal_strlit("down");
    reveal_strlit("left");
    reveal_strlit("right");
    reveal_strlit("home");
    reveal_strlit("end");
    reveal_strlit("pageup");
    reveal_strlit("pagedown");
    reveal_strlit("semicolon");
    reveal_strlit("comma");
    reveal_strlit("period");
    reveal_strlit("minus");
    reveal_strlit("plus");
    reveal_strlit("slash");
    reveal_strlit("grave");
    reveal_strlit("bracketleft");
    reveal_strlit("bracketright");
    reveal_strlit("backslash");
    reveal_strlit("apostrophe");
    reveal_strlit("unknown");
}

/// Words are no names of characters or function keys, and each has its keysym
/// and its key code.
proof fn lemma_words(name: Seq<char>)
    requires
        is_word(name),
    ensures
        name.len() >= 2,
        name[0] != 'f',
        name != "unknown"@,
        keysym_name(keysym_of_word(name)) == name,
        keycode_name(keycode_of_word(name)) == name,
{
    reveal_words();
}

proof fn lemma_keysym(keysym: u32)
    requires
        keysym_name(keysym) != "unknown"@,
    ensures
        keysym_of(keysym_name(keysym)) == keysym,
        keycode_name(keycode_of(keysym_name(keysym))) == keysym_name(keysym),
{
    let name = keysym_name(keysym);
    if 0x61 <= keysym <= 0x7A || 0x30 <= keysym <= 0x39 {
        let c = keysym as char;
        assert(name[0] == c);
        assert(c as int == keysym);
        lemma_keycode_of_char(c);
    } else if 0xFFBE <= keysym <= 0xFFC9 {
        lemma_function_number(keysym - 0xFFBE + 1);
    } else {
        assert(is_word(name));
        lemma_words(name);
        lemma_word_keysym(keysym);
    }
}

proof fn lemma_keycode_of_char(c: char)
    requires
        'a' <= c <= 'z' || '0' <= c <= '9',
    ensures
        keycode_name(keycode_of_char(c)) == char_key(c as int),
{
}

/// The keysym of a word is the one that has it.
proof fn lemma_word_keysym(keysym: u32)
    requires
        named_keysym(keysym) != "unknown"@,
    ensures
        keysym_of_word(named_keysym(keysym)) == keysym,
{
    reveal_words();
}

proof fn lemma_keycode(code: u16)
    requires
        keycode_name(code) != "unknown"@,
    ensures
        keycode_of(keycode_name(code)) == code,
        keysym_name(keysym_of(keycode_name(code))) == keycode_name(code),
{
    let name = keycode_name(code);
    if exists|c: char| keycode_of_char(c) == code && ('a' <= c <= 'z' || '0' <= c <= '9') {
        let c = choose|c: char| keycode_of_char(c) == code && ('a' <= c <= 'z' || '0' <= c <= '9');
        lemma_keycode_of_char(c);
        assert(name[0] == c);
    } else if exists|n: int| 1 <= n <= 12 && #[trigger] keycode_of_function(n) == code {
        let n = choose|n: int| 1 <= n <= 12 && #[trigger] keycode_of_function(n) == code;
        assert(name == function_key(n));
        lemma_function_number(n);
    } else {
        lemma_word_keycode(code);
        lemma_words(name);
    }
}

/// The key code of a word is the one that has it.
proof fn lemma_word_keycode(code: u16)
    requires
        keycode_name(code) != "unknown"@,
        forall|c: char|
            'a' <= c <= 'z' || '0' <= c <= '9' ==> #[trigger] keycode_of_char(c) != code,
        forall|n: int| 1 <= n <= 12 ==> #[trigger] keycode_of_function(n) != code,
    ensures
        is_word(keycode_name(code)),
        keycode_of_word(keycode_name(code)) == code,
{
    reveal_words();
    assert(keycode_of_char('a') != code);
    assert(keycode_of_char('b') != code);
    assert(keycode_of_char('c') != code);
    assert(keycode_of_char('d') != code);
    assert(keycode_of_char('e') != code);
    assert(keycode_of_char('f') != code);
    assert(keycode_of_char('g') != code);
    assert(keycode_of_char('h') != code);
    assert(keycode_of_char('i') != code);
    assert(keycode_of_char('j') != code);
    assert(keycode_of_char('k') != code);
    assert(keycode_of_char('l') != code);
    assert(keycode_of_char('m') != code);
    assert(keycode_of_char('n') != code);
    assert(keycode_of_char('o') != code);
    assert(keycode_of_char('p') != code);
    assert(keycode_of_char('q') != code);
    assert(keycode_of_char('r') != code);
    assert(keycode_of_char('s') != code);
    assert(keycode_of_char('t') != code);
    assert(keycode_of_char('u') != code);
    assert(keycode_of_char('v') != code);
    assert(keycode_of_char('w') != code);
    assert(keycode_of_char('x') != code);
    assert(keycode_of_char('y') != code);
    assert(keycode_of_char('z') != code);
    assert(keycode_of_char('0') != code);
    assert(keycode_of_char('1') != code);
    assert(keycode_of_char('2') != code);
    assert(keycode_of_char('3') != code);
    assert(keycode_of_char('4') != code);
    assert(keycode_of_char('5') != code);
    assert(keycode_of_char('6') != code);
    assert(keycode_of_char('7') != code);
    assert(keycode_of_char('8') != code);
    assert(keycode_of_char('9') != code);
    assert(keycode_of_function(1) != code);
    assert(keycode_of_function(2) != code);
    assert(keycode_of_function(3) != code);
    assert(keycode_of_function(4) != code);
    assert(keycode_of_function(5) != code);
    assert(keycode_of_function(6) != code);
    assert(keycode_of_function(7) != code);
    assert(keycode_of_function(8) != code);
    assert(keycode_of_function(9) != code);
    assert(keycode_of_function(10) != code);
    assert(keycode_of_function(11) != code);
    assert(keycode_of_function(12) != code);
}

/// Words are written in lower case.
proof fn lemma_lower_word(name: Seq<char>)
    requires
        is_word(name) || name == "unknown"@,
    ensures
        lower(name) == name,
{
    reveal_strlit("return");
    assert(lower("return"@) =~= "return"@);
    reveal_strlit("space");
    assert(lower("space"@) =~= "space"@);
    reveal_strlit("tab");
    assert(lower("tab"@) =~= "tab"@);
    reveal_strlit("escape");
    assert(lower("escape"@) =~= "escape"@);
    reveal_strlit("backspace");
    assert(lower("backspace"@) =~= "backspace"@);
    reveal_strlit("delete");
    assert(lower("delete"@) =~= "delete"@);
    reveal_strlit("up");
    assert(lower("up"@) =~= "up"@);
    reveal_strlit("down");
    assert(lower("down"@) =~= "down"@);
    reveal_strlit("left");
    assert(lower("left"@) =~= "left"@);
    reveal_strlit("right");
    assert(lower("right"@) =~= "right"@);
    reveal_strlit("home");
    assert(lower("home"@) =~= "home"@);
    reveal_strlit("end");
    assert(lower("end"@) =~= "end"@);
    reveal_strlit("pageup");
    assert(lower("pageup"@) =~= "pageup"@);
    reveal_strlit("pagedown");
    assert(lower("pagedown"@) =~= "pagedown"@);
    reveal_strlit("semicolon");
    assert(lower("semicolon"@) =~= "semicolon"@);
    reveal_strlit("comma");
    assert(lower("comma"@) =~= "comma"@);
    reveal_strlit("period");
    assert(lower("period"@) =~= "period"@);
    reveal_strlit("minus");
    assert(lower("minus"@) =~= "minus"@);
    reveal_strlit("plus");
    assert(lower("plus"@) =~= "plus"@);
    reveal_strlit("slash");
    assert(lower("slash"@) =~= "slash"@);
    reveal_strlit("grave");
    assert(lower("grave"@) =~= "grave"@);
    reveal_strlit("bracketleft");
    assert(lower("bracketleft"@) =~= "bracketleft"@);
    reveal_strlit("bracketright");
    assert(lower("bracketright"@) =~= "bracketright"@);
    reveal_strlit("backslash");
    assert(lower("backslash"@) =~= "backslash"@);
    reveal_strlit("apostrophe");
    assert(lower("apostrophe"@) =~= "apostrophe"@);
    reveal_strlit("unknown");
    assert(lower("unknown"@) =~= "unknown"@);
}

proof fn lemma_lower_function(n: int)
    requires
        1 <= n <= 12,
    ensures
        lower(function_key(n)) == function_key(n),
{
    reveal_strlit("f");
    reveal_with_fuel(decimal, 2);
    assert(lower(function_key(n)) =~= function_key(n));
}

proof fn lemma_lower_char(c: char)
    requires
        'a' <= c <= 'z' || '0' <= c <= '9',
    ensures
        lower(char_key(c as int)) == char_key(c as int),
{
    assert(lower(char_key(c as int)) =~= char_key(c as int));
}

/// The name of a keysym is in lower case, so that it is the key itself.
pub proof fn keysym_names_are_lowercase(keysym: u32)
    ensures
        lower(keysym_name(keysym)) == keysym_name(keysym),
{
    if 0x61 <= keysym <= 0x7A || 0x30 <= keysym <= 0x39 {
        lemma_lower_char(keysym as char);
    } else if 0xFFBE <= keysym <= 0xFFC9 {
        lemma_lower_function(keysym - 0xFFBE + 1);
    } else {
        lemma_lower_word(keysym_name(keysym));
    }
}

/// The name of a virtual key code of macOS is in lower case too.
pub proof fn keycode_names_are_lowercase(code: u16)
    ensures
        lower(keycode_name(code)) == keycode_name(code),
{
    if keycode_name(code) == "unknown"@ {
        lemma_lower_word(keycode_name(code));
    } else {
        lemma_keycode(code);
        keysym_names_are_lowercase(keysym_of(keycode_name(code)));
    }
}

/// No two keysyms have the same name.
pub proof fn keysym_names_are_unique(a: u32, b: u32)
    requires
        keysym_name(a) == keysym_name(b),
        keysym_name(a) != "unknown"@,
    ensures
        a == b,
{
    lemma_keysym(a);
    lemma_keysym(b);
}

/// No two virtual key codes of macOS have the same name.
pub proof fn keycode_names_are_unique(a: u16, b: u16)
    requires
        keycode_name(a) == keycode_name(b),
        keycode_name(a) != "unknown"@,
    ensures
        a == b,
{
    lemma_keycode(a);
    lemma_keycode(b);
}

/// Wayland and macOS know the same key names: a name that some keysym has, some
/// virtual key code has too, and the other way round.
pub proof fn wayland_and_macos_name_the_same_keys(name: Seq<char>)
    requires
        name != "unknown"@,
    ensures
        (exists|keysym: u32| #[trigger] keysym_name(keysym) == name) <==> (exists|code: u16|
            #[trigger] keycode_name(code) == name),
{
    if exists|keysym: u32| #[trigger] keysym_name(keysym) == name {
        let keysym = choose|keysym: u32| #[trigger] keysym_name(keysym) == name;
        lemma_keysym(keysym);
        assert(keycode_name(keycode_of(name)) == name);
    }
    if exists|code: u16| #[trigger] keycode_name(code) == name {
        let code = choose|code: u16| #[trigger] keycode_name(code) == name;
        lemma_keycode(code);
        assert(keysym_name(keysym_of(name)) == name);
    }
}

/// The keysyms of uppercase letters have no name.
pub proof fn uppercase_keysyms_are_unknown(keysym: u32)
    requires
        0x41 <= keysym <= 0x5A,
    ensures
        keysym_name(keysym) == "unknown"@,
{
}

} // verus!
