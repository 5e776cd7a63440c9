//! The [`Action`] enum: every command the window manager can execute.
//!
//! Keybinding `action` strings are untrusted input.  They are parsed by
//! [`Action::from_str`], which accepts the strings below and rejects every
//! other one; there is no way to run an arbitrary command.
//!
//! | string                     | action                               |
//! |----------------------------|--------------------------------------|
//! | `focus_next`               | `FocusNext`                          |
//! | `focus_prev`               | `FocusPrev`                          |
//! | `move_next`                | `MoveNext`                           |
//! | `move_prev`                | `MovePrev`                           |
//! | `kill_focused`             | `KillFocused`                        |
//! | `toggle_float`             | `ToggleFloat`                        |
//! | `toggle_fullscreen`        | `ToggleFullscreen`                   |
//! | `set_layout:fibonacci`     | `SetLayout(LayoutKind::Fibonacci)`   |
//! | `set_layout:bsp`           | `SetLayout(LayoutKind::Bsp)`         |
//! | `set_layout:monocle`       | `SetLayout(LayoutKind::Monocle)`     |
//! | `set_layout:center_main`   | `SetLayout(LayoutKind::CenterMain)`  |
//! | `set_layout:float`         | `SetLayout(LayoutKind::Float)`       |
//! | `set_layout:columns:N`     | `SetLayout(LayoutKind::Columns{N})`  |
//! | `switch_workspace:N`       | `SwitchWorkspace(N)`                 |
//! | `move_to_workspace:N`      | `MoveFocusedToWorkspace(N)`          |
//! | `reload_config`            | `ReloadConfig`                       |
//! | `quit`                     | `Quit`                               |

use crate::error::{is_config_error, joined, Error};
use crate::layout::LayoutKind;
use crate::text::{
    chars_of, contains_char, decimal, lemma_decimal_value, parse_number, parse_unsigned, same,
    starts_with, strip_prefix,
};
use std::str::FromStr;
use vstd::prelude::*;
use vstd::string::*;

verus! {

/// Every command the window manager can execute in response to a keybinding.
#[derive(Debug, Clone, Copy, PartialEq, Eq, Structural)]
pub enum Action {
    /// Move keyboard focus to the next window.
    FocusNext,
    /// Move keyboard focus to the previous window.
    FocusPrev,
    /// Swap the focused window with the next one in the layout order.
    MoveNext,
    /// Swap the focused window with the previous one in the layout order.
    MovePrev,
    /// Close the focused window gracefully.
    KillFocused,
    /// Toggle the focused window between tiled and floating.
    ToggleFloat,
    /// Toggle the focused window between the full screen and its layout slot.
    ToggleFullscreen,
    /// Switch the active workspace to the given layout.
    SetLayout(LayoutKind),
    /// Activate workspace N (1-indexed).
    SwitchWorkspace(u8),
    /// Move the focused window to workspace N without switching to it.
    MoveFocusedToWorkspace(u8),
    /// Re-read the configuration and apply changes without restarting.
    ReloadConfig,
    /// Gracefully exit the window manager.
    Quit,
}

/// What parsing yields: a value, or the message of the configuration error.
pub enum Parsed<T> {
    Value(T),
    Rejected(Seq<char>),
}

/// A 1-based index below 256: the number in `digits`, or the message for an
/// index that is no such number (`invalid`) or is zero (`zero`).
pub open spec fn parse_index(digits: Seq<char>, invalid: Seq<char>, zero: Seq<char>) -> Parsed<u8> {
    match parse_unsigned(digits, 10, 255) {
        None => Parsed::Rejected(invalid),
        Some(n) => if n == 0 {
            Parsed::Rejected(zero)
        } else {
            Parsed::Value(n as u8)
        },
    }
}

/// A workspace index in the action string `whole`.
pub open spec fn parse_workspace(digits: Seq<char>, whole: Seq<char>) -> Parsed<u8> {
    parse_index(
        digits,
        "invalid workspace index in action: "@ + whole,
        "workspace index must be >= 1"@,
    )
}

/// A column count in the action string `whole`.
pub open spec fn parse_columns(digits: Seq<char>, whole: Seq<char>) -> Parsed<u8> {
    parse_index(
        digits,
        "invalid column count in action: "@ + whole,
        "column count must be >= 1"@,
    )
}

/// The action strings without a number.
pub open spec fn fixed_action(s: Seq<char>) -> Option<Action> {
    if s == "focus_next"@ {
        Some(Action::FocusNext)
    } else if s == "focus_prev"@ {
        Some(Action::FocusPrev)
    } else if s == "move_next"@ {
        Some(Action::MoveNext)
    } else if s == "move_prev"@ {
        Some(Action::MovePrev)
    } else if s == "kill_focused"@ {
        Some(Action::KillFocused)
    } else if s == "toggle_float"@ {
        Some(Action::ToggleFloat)
    } else if s == "toggle_fullscreen"@ {
        Some(Action::ToggleFullscreen)
    } else if s == "reload_config"@ {
        Some(Action::ReloadConfig)
    } else if s == "quit"@ {
        Some(Action::Quit)
    } else if s == "set_layout:fibonacci"@ {
        Some(Action::SetLayout(LayoutKind::Fibonacci))
    } else if s == "set_layout:bsp"@ {
        Some(Action::SetLayout(LayoutKind::Bsp))
    } else if s == "set_layout:monocle"@ {
        Some(Action::SetLayout(LayoutKind::Monocle))
    } else if s == "set_layout:center_main"@ {
        Some(Action::SetLayout(LayoutKind::CenterMain))
    } else if s == "set_layout:float"@ {
        Some(Action::SetLayout(LayoutKind::Float))
    } else {
        None
    }
}

/// What follows `prefix` in `s`, when that is a single `:`-free argument.
pub open spec fn argument(s: Seq<char>, prefix: Seq<char>) -> Option<Seq<char>> {
    if starts_with(s, prefix) && !s.skip(prefix.len() as int).contains(':') {
        Some(s.skip(prefix.len() as int))
    } else {
        None
    }
}

/// The action that a string names.
pub open spec fn parse_action(s: Seq<char>) -> Parsed<Action> {
    if let Some(action) = fixed_action(s) {
        Parsed::Value(action)
    } else if starts_with(s, "set_layout:columns:"@) {
        match parse_columns(s.skip("set_layout:columns:"@.len() as int), s) {
            Parsed::Value(count) => Parsed::Value(Action::SetLayout(LayoutKind::Columns { count })),
            Parsed::Rejected(m) => Parsed::Rejected(m),
        }
    } else if let Some(n) = argument(s, "switch_workspace:"@) {
        match parse_workspace(n, s) {
            Parsed::Value(n) => Parsed::Value(Action::SwitchWorkspace(n)),
            Parsed::Rejected(m) => Parsed::Rejected(m),
        }
    } else if let Some(n) = argument(s, "move_to_workspace:"@) {
        match parse_workspace(n, s) {
            Parsed::Value(n) => Parsed::Value(Action::MoveFocusedToWorkspace(n)),
            Parsed::Rejected(m) => Parsed::Rejected(m),
        }
    } else {
        Parsed::Rejected("unknown action: "@ + s)
    }
}

/// `r` is what `p` says: the value, or a configuration error with the message.
pub open spec fn yields<T>(r: Result<T, Error>, p: Parsed<T>) -> bool {
    match r {
        Ok(v) => p == Parsed::Value(v),
        Err(e) => p matches Parsed::Rejected(m) && is_config_error(e, m),
    }
}

fn fixed_action_of(s: &str) -> (r: Option<Action>)
    ensures
        r == fixed_action(s@),
{
    if same(s, "focus_next") {
        Some(Action::FocusNext)
    } else if same(s, "focus_prev") {
        Some(Action::FocusPrev)
    } else if same(s, "move_next") {
        Some(Action::MoveNext)
    } else if same(s, "move_prev") {
        Some(Action::MovePrev)
    } else if same(s, "kill_focused") {
        Some(Action::KillFocused)
    } else if same(s, "toggle_float") {
        Some(Action::ToggleFloat)
    } else if same(s, "toggle_fullscreen") {
        Some(Action::ToggleFullscreen)
    } else if same(s, "reload_config") {
        Some(Action::ReloadConfig)
    } else if same(s, "quit") {
        Some(Action::Quit)
    } else if same(s, "set_layout:fibonacci") {
        Some(Action::SetLayout(LayoutKind::Fibonacci))
    } else if same(s, "set_layout:bsp") {
        Some(Action::SetLayout(LayoutKind::Bsp))
    } else if same(s, "set_layout:monocle") {
        Some(Action::SetLayout(LayoutKind::Monocle))
    } else if same(s, "set_layout:center_main") {
        Some(Action::SetLayout(LayoutKind::CenterMain))
    } else if same(s, "set_layout:float") {
        Some(Action::SetLayout(LayoutKind::Float))
    } else {
        None
    }
}

/// Parse a column count; `whole` is the whole action string.
fn parse_column_count(s: &Vec<char>, whole: &str) -> (r: Result<u8, Error>)
    ensures
        yields(r, parse_columns(s@, whole@)),
{
    match parse_number(s, 10, 255) {
        None => Err(Error::Config(joined("invalid column count in action: ", whole))),
        Some(n) => if n == 0 {
            Err(Error::Config("column count must be >= 1".to_owned()))
        } else {
            Ok(n as u8)
        },
    }
}

/// Parse a 1-based workspace index; `whole` is the whole action string.
fn parse_workspace_index(s: &Vec<char>, whole: &str) -> (r: Result<u8, Error>)
    ensures
        yields(r, parse_workspace(s@, whole@)),
{
    match parse_number(s, 10, 255) {
        None => Err(Error::Config(joined("invalid workspace index in action: ", whole))),
        Some(n) => if n == 0 {
            Err(Error::Config("workspace index must be >= 1".to_owned()))
        } else {
            Ok(n as u8)
        },
    }
}

fn argument_of(s: &Vec<char>, prefix: &str) -> (r: Option<Vec<char>>)
    ensures
        match r {
            Some(arg) => argument(s@, prefix@) == Some(arg@),
            None => argument(s@, prefix@) is None,
        },
{
    match strip_prefix(s, prefix) {
        Some(rest) => if contains_char(&rest, ':') {
            None
        } else {
            Some(rest)
        },
        None => None,
    }
}

impl FromStr for Action {
    type Err = Error;

    fn from_str(s: &str) -> (r: Result<Self, Error>)
        ensures
            yields(r, parse_action(s@)),
    {
        if let Some(action) = fixed_action_of(s) {
            return Ok(action);
        }
        let chars = chars_of(s);
        if let Some(n) = strip_prefix(&chars, "set_layout:columns:") {
            return match parse_column_count(&n, s) {
                Ok(count) => Ok(Action::SetLayout(LayoutKind::Columns { count })),
                Err(e) => Err(e),
            };
        }
        if let Some(n) = argument_of(&chars, "switch_workspace:") {
            return match parse_workspace_index(&n, s) {
                Ok(n) => Ok(Action::SwitchWorkspace(n)),
                Err(e) => Err(e),
            };
        }
        if let Some(n) = argument_of(&chars, "move_to_workspace:") {
            return match parse_workspace_index(&n, s) {
                Ok(n) => Ok(Action::MoveFocusedToWorkspace(n)),
                Err(e) => Err(e),
            };
        }
        Err(Error::Config(joined("unknown action: ", s)))
    }
}

// ── The string of an action ──────────────────────────────────────────────────

/// The string that names an action in a configuration.
pub open spec fn action_string(a: Action) -> Seq<char> {
    match a {
        Action::FocusNext => "focus_next"@,
        Action::FocusPrev => "focus_prev"@,
        Action::MoveNext => "move_next"@,
        Action::MovePrev => "move_prev"@,
        Action::KillFocused => "kill_focused"@,
        Action::ToggleFloat => "toggle_float"@,
        Action::ToggleFullscreen => "toggle_fullscreen"@,
        Action::SetLayout(LayoutKind::Fibonacci) => "set_layout:fibonacci"@,
        Action::SetLayout(LayoutKind::Bsp) => "set_layout:bsp"@,
        Action::SetLayout(LayoutKind::Monocle) => "set_layout:monocle"@,
        Action::SetLayout(LayoutKind::CenterMain) => "set_layout:center_main"@,
        Action::SetLayout(LayoutKind::Float) => "set_layout:float"@,
        Action::SetLayout(LayoutKind::Columns { count }) => "set_layout:columns:"@ + decimal(
            count as nat,
        ),
        Action::SwitchWorkspace(n) => "switch_workspace:"@ + decimal(n as nat),
        Action::MoveFocusedToWorkspace(n) => "move_to_workspace:"@ + decimal(n as nat),
        Action::ReloadConfig => "reload_config"@,
        Action::Quit => "quit"@,
    }
}

/// The numbers in an action are 1-based.
pub open spec fn action_valid(a: Action) -> bool {
    match a {
        Action::SetLayout(LayoutKind::Columns { count }) => count >= 1,
        Action::SwitchWorkspace(n) => n >= 1,
        Action::MoveFocusedToWorkspace(n) => n >= 1,
        _ => true,
    }
}

proof fn reveal_action_strings()
    ensures
        "focus_next"@.len() == 10,
        "focus_prev"@.len() == 10,
        "focus_next"@[6] == 'n',
        "focus_prev"@[6] == 'p',
        "focus_next"@[0] == 'f',
        "focus_prev"@[0] == 'f',
        "move_next"@.len() == 9,
        "move_prev"@.len() == 9,
        "move_next"@[5] == 'n',
        "move_prev"@[5] == 'p',
        "kill_focused"@.len() == 12,
        "kill_focused"@[0] == 'k',
        "toggle_float"@.len() == 12,
        "toggle_float"@[0] == 't',
        "toggle_fullscreen"@.len() == 17,
        "toggle_fullscreen"@[0] == 't',
        "reload_config"@.len() == 13,
        "reload_config"@[0] == 'r',
        "quit"@.len() == 4,
        "quit"@[0] == 'q',
        "set_layout:fibonacci"@.len() == 20,
        "set_layout:fibonacci"@[11] == 'f',
        "set_layout:bsp"@.len() == 14,
        "set_layout:bsp"@[11] == 'b',
        "set_layout:monocle"@.len() == 18,
        "set_layout:monocle"@[11] == 'm',
        "set_layout:center_main"@.len() == 22,
        "set_layout:center_main"@[12] == 'e',
        "set_layout:float"@.len() == 16,
        "set_layout:float"@[11] == 'f',
        "set_layout:columns:"@.len() == 19,
        "set_layout:columns:"@[0] == 's',
        "set_layout:columns:"@[1] == 'e',
        "set_layout:columns:"@[11] == 'c',
        "set_layout:columns:"@[12] == 'o',
        "switch_workspace:"@.len() == 17,
        "switch_workspace:"@[0] == 's',
        "switch_workspace:"@[1] == 'w',
        "switch_workspace:"@[11] == 's',
        "switch_workspace:"@[12] == 'p',
        "move_to_workspace:"@.len() == 18,
        "move_to_workspace:"@[0] == 'm',
        "move_to_workspace:"@[11] == 'k',
        "move_to_workspace:"@[12] == 's',
        "move_to_workspace:"@[5] == 't',
{
    reveal_strlit("focus_next");
    reveal_strlit("focus_prev");
    reveal_strlit("move_next");
    reveal_strlit("move_prev");
    reveal_strlit("kill_focused");
    reveal_strlit("toggle_float");
    reveal_strlit("toggle_fullscreen");
    reveal_strlit("reload_config");
    reveal_strlit("quit");
    reveal_strlit("set_layout:fibonacci");
    reveal_strlit("set_layout:bsp");
    reveal_strlit("set_layout:monocle");
    reveal_strlit("set_layout:center_main");
    reveal_strlit("set_layout:float");
    reveal_strlit("set_layout:columns:");
    reveal_strlit("switch_workspace:");
    reveal_strlit("move_to_workspace:");
}

proof fn lemma_numbered(prefix: Seq<char>, n: u8)
    requires
        n >= 1,
    ensures
        starts_with(prefix + decimal(n as nat), prefix),
        (prefix + decimal(n as nat)).skip(prefix.len() as int) == decimal(n as nat),
        !decimal(n as nat).contains(':'),
        decimal(n as nat).len() >= 1,
        parse_unsigned(decimal(n as nat), 10, 255) == Some(n as nat),
{
    let d = decimal(n as nat);
    let s = prefix + d;
    assert(s.subrange(0, prefix.len() as int) =~= prefix);
    assert(s.skip(prefix.len() as int) =~= d);
    lemma_decimal_value(n as nat);
    assert(d[0] != '+');
}

/// Every action has a string that parses to it.
pub proof fn action_string_parses_back(a: Action)
    requires
        action_valid(a),
    ensures
        parse_action(action_string(a)) == Parsed::Value(a),
{
    reveal_action_strings();
    let s = action_string(a);
    match a {
        Action::SetLayout(LayoutKind::Columns { count }) => {
            lemma_numbered("set_layout:columns:"@, count);
            assert(s[0] == 's' && s[1] == 'e' && s[11] == 'c' && s[12] == 'o');
            assert(fixed_action(s) is None);
        },
        Action::SwitchWorkspace(n) => {
            lemma_numbered("switch_workspace:"@, n);
            assert(s[0] == 's' && s[1] == 'w' && s[11] == 's' && s[12] == 'p');
            assert(fixed_action(s) is None);
            if starts_with(s, "set_layout:columns:"@) {
                assert(s.subrange(0, 19)[1] == s[1]);
            }
        },
        Action::MoveFocusedToWorkspace(n) => {
            lemma_numbered("move_to_workspace:"@, n);
            assert(s[0] == 'm' && s[5] == 't' && s[11] == 'k' && s[12] == 's');
            assert(fixed_action(s) is None);
            if starts_with(s, "set_layout:columns:"@) {
                assert(s.subrange(0, 19)[0] == s[0]);
            }
            if starts_with(s, "switch_workspace:"@) {
                assert(s.subrange(0, 17)[0] == s[0]);
            }
        },
        _ => {},
    }
}

/// Whatever a string parses to is a known action whose numbers are 1-based.
pub proof fn parsed_actions_are_valid(s: Seq<char>)
    ensures
        parse_action(s) matches Parsed::Value(a) ==> action_valid(a),
{
}

/// Nothing but the strings of actions is accepted: one without a number is the
/// string of its action letter for letter, and one with a number is its prefix
/// followed by a literal of that number.
pub proof fn only_action_strings_are_accepted(s: Seq<char>, a: Action)
    requires
        parse_action(s) == Parsed::Value(a),
    ensures
        match a {
            Action::SetLayout(LayoutKind::Columns { count }) => starts_with(
                s,
                "set_layout:columns:"@,
            ) && parse_unsigned(s.skip("set_layout:columns:"@.len() as int), 10, 255) == Some(
                count as nat,
            ),
            Action::SwitchWorkspace(n) => starts_with(s, "switch_workspace:"@) && parse_unsigned(
                s.skip("switch_workspace:"@.len() as int),
                10,
                255,
            ) == Some(n as nat),
            Action::MoveFocusedToWorkspace(n) => starts_with(s, "move_to_workspace:"@)
                && parse_unsigned(s.skip("move_to_workspace:"@.len() as int), 10, 255) == Some(
                n as nat,
            ),
            _ => s == action_string(a),
        },
{
}

} // verus!
