//! User configuration.
//!
//! Values come from a user-writable file and are untrusted: keybinding `action`
//! strings are only ever executed after [`crate::action::Action::from_str`]
//! accepted them.

use crate::layout::LayoutKind;
use crate::text::{contains_text, decimal, eq_ignore_ascii_case, lower, occurs, push_decimal};
use vstd::prelude::*;
use vstd::string::*;

verus! {

/// Screen-edge padding in physical pixels, reserved for external bars.
#[derive(Debug, Clone, Copy, PartialEq, Eq, Structural)]
pub struct Padding {
    pub top: u32,
    pub bottom: u32,
    pub left: u32,
    pub right: u32,
}

impl Default for Padding {
    fn default() -> (r: Self)
        ensures
            r == (Padding { top: 0, bottom: 0, left: 0, right: 0 }),
    {
        Padding { top: 0, bottom: 0, left: 0, right: 0 }
    }
}

/// Animation settings.
#[derive(Debug, Clone, Copy, PartialEq, Eq, Structural)]
pub struct AnimationConfig {
    /// Master switch: `false` disables all motion effects regardless of the
    /// system preference.
    pub enabled: bool,
    /// Total animation duration in milliseconds.
    pub duration_ms: u32,
    /// Interpolation steps, held between 1 and 60 when used.
    pub frames: u32,
}

impl Default for AnimationConfig {
    fn default() -> (r: Self)
        ensures
            r == (AnimationConfig { enabled: true, duration_ms: 200, frames: 6 }),
    {
        AnimationConfig { enabled: true, duration_ms: 200, frames: 6 }
    }
}

/// The number of interpolation steps for a configured `frames`.
pub open spec fn clamped_frames(frames: u32) -> u32 {
    if frames < 1 {
        1
    } else if frames > 60 {
        60
    } else {
        frames
    }
}

impl AnimationConfig {
    /// Interpolation steps of one animation: at least 1, at most 60.
    pub fn frame_count(&self) -> (r: u32)
        ensures
            r == clamped_frames(self.frames),
    {
        if self.frames < 1 {
            1
        } else if self.frames > 60 {
            60
        } else {
            self.frames
        }
    }
}

/// What becomes of windows on workspaces that are not shown.
#[derive(Debug, Clone, Copy, PartialEq, Eq, Structural)]
pub enum TaskbarMode {
    /// They are parked off screen and stay in the taskbar.
    Global,
    /// They are hidden, so each workspace has its own taskbar entries.
    Local,
}

impl Default for TaskbarMode {
    fn default() -> (r: Self)
        ensures
            r == TaskbarMode::Global,
    {
        TaskbarMode::Global
    }
}

// ── Float rules ──────────────────────────────────────────────────────────────

/// What `str::to_lowercase` returns: the Unicode lowercase of a text.
pub uninterp spec fn unicode_lowercase(s: Seq<char>) -> Seq<char>;

/// Calls `str::to_lowercase`, which maps a text to its Unicode lowercase.  The
/// mapping itself is Unicode's and is only named here.
#[verifier::external_body]
fn to_lowercase(s: &str) -> (r: String)
    ensures
        r@ == unicode_lowercase(s@),
{
    s.to_lowercase()
}

/// A rule that causes matching windows to start in floating mode.
///
/// All specified fields must match; omitted fields are wildcards.
#[derive(Debug, Clone)]
pub struct FloatRule {
    /// Exact window class name (case-insensitive).
    pub class: Option<String>,
    /// Title must contain this substring (case-insensitive).
    pub title_contains: Option<String>,
    /// Process executable filename (case-insensitive).
    pub exe: Option<String>,
}

impl Default for FloatRule {
    fn default() -> (r: Self)
        ensures
            r.class is None,
            r.title_contains is None,
            r.exe is None,
    {
        FloatRule { class: None, title_contains: None, exe: None }
    }
}

/// `pattern` is absent, or equal to `value` up to ASCII case.
pub open spec fn name_matches(pattern: Option<String>, value: Seq<char>) -> bool {
    pattern matches Some(p) ==> lower(value) == lower(p@)
}

/// The rule matches a window of the given class, title and executable.
pub open spec fn rule_matches(
    rule: FloatRule,
    class: Seq<char>,
    title: Seq<char>,
    exe: Seq<char>,
) -> bool {
    &&& name_matches(rule.class, class)
    &&& rule.title_contains matches Some(t) ==> occurs(
        unicode_lowercase(title),
        unicode_lowercase(t@),
    )
    &&& name_matches(rule.exe, exe)
}

fn name_matches_exec(pattern: &Option<String>, value: &str) -> (r: bool)
    ensures
        r == name_matches(*pattern, value@),
{
    match pattern {
        Some(p) => eq_ignore_ascii_case(value, p.as_str()),
        None => true,
    }
}

/// The rule matches a window of the given class and executable, where
/// `title` and `part` are the lowercase of its title and of the part that the
/// rule asks for.
pub open spec fn rule_matches_lowercase(
    rule: FloatRule,
    class: Seq<char>,
    title: Seq<char>,
    part: Seq<char>,
    exe: Seq<char>,
) -> bool {
    &&& name_matches(rule.class, class)
    &&& rule.title_contains is Some ==> occurs(title, part)
    &&& name_matches(rule.exe, exe)
}

impl FloatRule {
    /// Whether this rule matches the given window attributes.
    pub fn matches(&self, class: &str, title: &str, exe: &str) -> (r: bool)
        ensures
            r == rule_matches(*self, class@, title@, exe@),
    {
        match &self.title_contains {
            Some(t) => {
                let title = to_lowercase(title);
                let part = to_lowercase(t.as_str());
                self.matches_lowercase(class, title.as_str(), part.as_str(), exe)
            },
            None => self.matches_lowercase(class, title, title, exe),
        }
    }

    /// Whether this rule matches a window of the given class and executable,
    /// where `title` and `part` are the lowercase of its title and of the part
    /// that the rule asks for.
    pub fn matches_lowercase(&self, class: &str, title: &str, part: &str, exe: &str) -> (r: bool)
        ensures
            r == rule_matches_lowercase(*self, class@, title@, part@, exe@),
    {
        let title_matches = match &self.title_contains {
            Some(_) => contains_text(title, part),
            None => true,
        };
        name_matches_exec(&self.class, class) && title_matches && name_matches_exec(&self.exe, exe)
    }
}

/// A rule without fields matches every window.
pub proof fn empty_rule_matches_all(class: Seq<char>, title: Seq<char>, exe: Seq<char>)
    ensures
        rule_matches(
            (FloatRule { class: None, title_contains: None, exe: None }),
            class,
            title,
            exe,
        ),
{
}

/// A rule matches where each of its fields alone would.
pub proof fn rules_need_every_field(
    rule: FloatRule,
    class: Seq<char>,
    title: Seq<char>,
    exe: Seq<char>,
)
    ensures
        ({
            let none = FloatRule { class: None, title_contains: None, exe: None };
            rule_matches(rule, class, title, exe) <==> {
                &&& rule_matches((FloatRule { class: rule.class, ..none }), class, title, exe)
                &&& rule_matches(
                    (FloatRule { title_contains: rule.title_contains, ..none }),
                    class,
                    title,
                    exe,
                )
                &&& rule_matches((FloatRule { exe: rule.exe, ..none }), class, title, exe)
            }
        }),
{
}

// ── Workspaces and keybindings ───────────────────────────────────────────────

#[derive(Debug, Clone)]
pub struct WorkspaceConfig {
    pub name: String,
}

/// A user keybinding declaration.
#[derive(Debug, Clone)]
pub struct Keybinding {
    pub modifiers: Vec<String>,
    pub key: String,
    /// Named action string, such as `focus_next`.
    pub action: String,
}

/// The text of a keybinding declaration.
pub struct BindingText {
    pub modifiers: Seq<Seq<char>>,
    pub key: Seq<char>,
    pub action: Seq<char>,
}

/// The characters of a list of strings.
pub open spec fn texts(strings: Seq<String>) -> Seq<Seq<char>> {
    Seq::new(strings.len(), |i: int| strings[i]@)
}

impl View for Keybinding {
    type V = BindingText;

    open spec fn view(&self) -> BindingText {
        BindingText {
            modifiers: texts(self.modifiers@),
            key: self.key@,
            action: self.action@,
        }
    }
}

/// The texts of a list of keybinding declarations.
pub open spec fn binding_texts(bindings: Seq<Keybinding>) -> Seq<BindingText> {
    Seq::new(bindings.len(), |i: int| bindings[i]@)
}

/// A declaration with `alt` as its only modifier.
pub open spec fn alt_binding(key: Seq<char>, action: Seq<char>) -> BindingText {
    BindingText { modifiers: seq!["alt"@], key, action }
}

/// A declaration with the modifiers `alt` and `shift`.
pub open spec fn alt_shift_binding(key: Seq<char>, action: Seq<char>) -> BindingText {
    BindingText { modifiers: seq!["alt"@, "shift"@], key, action }
}

/// The built-in keybindings.
pub open spec fn default_bindings() -> Seq<BindingText> {
    seq![
        alt_binding("h"@, "focus_prev"@),
        alt_binding("l"@, "focus_next"@),
        alt_shift_binding("h"@, "move_prev"@),
        alt_shift_binding("l"@, "move_next"@),
        alt_shift_binding("q"@, "kill_focused"@),
        alt_binding("f"@, "toggle_fullscreen"@),
        alt_shift_binding("space"@, "toggle_float"@),
        alt_binding("g"@, "set_layout:fibonacci"@),
        alt_binding("t"@, "set_layout:bsp"@),
        alt_binding("m"@, "set_layout:monocle"@),
        alt_binding("c"@, "set_layout:columns:2"@),
        alt_binding("u"@, "set_layout:center_main"@),
        alt_binding("1"@, "switch_workspace:1"@),
        alt_binding("2"@, "switch_workspace:2"@),
        alt_binding("3"@, "switch_workspace:3"@),
        alt_binding("4"@, "switch_workspace:4"@),
        alt_binding("5"@, "switch_workspace:5"@),
        alt_binding("6"@, "switch_workspace:6"@),
        alt_binding("7"@, "switch_workspace:7"@),
        alt_binding("8"@, "switch_workspace:8"@),
        alt_binding("9"@, "switch_workspace:9"@),
        alt_shift_binding("1"@, "move_to_workspace:1"@),
        alt_shift_binding("2"@, "move_to_workspace:2"@),
        alt_shift_binding("3"@, "move_to_workspace:3"@),
        alt_shift_binding("4"@, "move_to_workspace:4"@),
        alt_shift_binding("5"@, "move_to_workspace:5"@),
        alt_shift_binding("6"@, "move_to_workspace:6"@),
        alt_shift_binding("7"@, "move_to_workspace:7"@),
        alt_shift_binding("8"@, "move_to_workspace:8"@),
        alt_shift_binding("9"@, "move_to_workspace:9"@),
        alt_shift_binding("r"@, "reload_config"@),
        alt_shift_binding("e"@, "quit"@),
    ]
}

fn alt(key: &str, action: &str) -> (r: Keybinding)
    ensures
        r@ == alt_binding(key@, action@),
{
    let mut modifiers: Vec<String> = Vec::new();
    modifiers.push("alt".to_owned());
    assert(texts(modifiers@) =~= seq!["alt"@]);
    Keybinding { modifiers, key: key.to_owned(), action: action.to_owned() }
}

fn alt_shift(key: &str, action: &str) -> (r: Keybinding)
    ensures
        r@ == alt_shift_binding(key@, action@),
{
    let mut modifiers: Vec<String> = Vec::new();
    modifiers.push("alt".to_owned());
    modifiers.push("shift".to_owned());
    assert(texts(modifiers@) =~= seq!["alt"@, "shift"@]);
    Keybinding { modifiers, key: key.to_owned(), action: action.to_owned() }
}

/// Built-in keybindings used when no config file is present.  All use Alt as
/// the primary modifier.
pub fn default_keybindings() -> (r: Vec<Keybinding>)
    ensures
        binding_texts(r@) == default_bindings(),
{
    let r: Vec<Keybinding> =
        vec![
        alt("h", "focus_prev"),
        alt("l", "focus_next"),
        alt_shift("h", "move_prev"),
        alt_shift("l", "move_next"),
        alt_shift("q", "kill_focused"),
        alt("f", "toggle_fullscreen"),
        alt_shift("space", "toggle_float"),
        alt("g", "set_layout:fibonacci"),
        alt("t", "set_layout:bsp"),
        alt("m", "set_layout:monocle"),
        alt("c", "set_layout:columns:2"),
        alt("u", "set_layout:center_main"),
        alt("1", "switch_workspace:1"),
        alt("2", "switch_workspace:2"),
        alt("3", "switch_workspace:3"),
        alt("4", "switch_workspace:4"),
        alt("5", "switch_workspace:5"),
        alt("6", "switch_workspace:6"),
        alt("7", "switch_workspace:7"),
        alt("8", "switch_workspace:8"),
        alt("9", "switch_workspace:9"),
        alt_shift("1", "move_to_workspace:1"),
        alt_shift("2", "move_to_workspace:2"),
        alt_shift("3", "move_to_workspace:3"),
        alt_shift("4", "move_to_workspace:4"),
        alt_shift("5", "move_to_workspace:5"),
        alt_shift("6", "move_to_workspace:6"),
        alt_shift("7", "move_to_workspace:7"),
        alt_shift("8", "move_to_workspace:8"),
        alt_shift("9", "move_to_workspace:9"),
        alt_shift("r", "reload_config"),
        alt_shift("e", "quit"),
    ];
    assert(binding_texts(r@) =~= default_bindings());
    r
}

// ── Config ───────────────────────────────────────────────────────────────────

/// Top-level configuration.
#[derive(Debug, Clone)]
pub struct Config {
    /// Gap between tiled windows in physical pixels.
    pub gap: u32,
    /// Border width in physical pixels.
    pub border_width: u32,
    /// Border colour for the focused window (`#RRGGBB`).
    pub border_active: String,
    /// Border colour for all unfocused windows (`#RRGGBB`).
    pub border_inactive: String,
    /// Border corner radius in physical pixels (0 = square corners).
    pub border_radius: u32,
    /// Screen-edge padding to reserve for external bars.
    pub padding: Padding,
    pub workspaces: Vec<WorkspaceConfig>,
    pub keybindings: Vec<Keybinding>,
    pub default_layout: LayoutKind,
    /// Animation configuration (fades, window-move easing).
    pub animations: AnimationConfig,
    /// Windows matching any of these rules start in floating mode.
    pub float_rules: Vec<FloatRule>,
    /// What becomes of windows on workspaces that are not shown.
    pub taskbar_mode: TaskbarMode,
}

fn numbered_workspaces(n: u64) -> (r: Vec<WorkspaceConfig>)
    requires
        n <= usize::MAX,
    ensures
        r@.len() == n,
        forall|i: int| 0 <= i < n ==> (#[trigger] r@[i]).name@ == decimal((i + 1) as nat),
{
    let mut r: Vec<WorkspaceConfig> = Vec::new();
    let mut i: u64 = 0;
    while i < n
        invariant
            i <= n,
            r@.len() == i,
            forall|j: int| 0 <= j < i ==> (#[trigger] r@[j]).name@ == decimal((j + 1) as nat),
        decreases n - i,
    {
        i += 1;
        let mut name = String::new();
        push_decimal(&mut name, i);
        assert(name@ =~= decimal(i as nat));
        r.push(WorkspaceConfig { name });
    }
    r
}

impl Default for Config {
    fn default() -> (r: Self)
        ensures
            r.gap == 8,
            r.border_width == 5,
            r.border_active@ == "#5E81AC"@,
            r.border_inactive@ == "#3B4252"@,
            r.border_radius == 8,
            r.padding == (Padding { top: 0, bottom: 0, left: 0, right: 0 }),
            r.workspaces@.len() == 9,
            forall|i: int|
                0 <= i < 9 ==> (#[trigger] r.workspaces@[i]).name@ == decimal((i + 1) as nat),
            binding_texts(r.keybindings@) == default_bindings(),
            r.default_layout == LayoutKind::Fibonacci,
            r.animations == (AnimationConfig { enabled: true, duration_ms: 200, frames: 6 }),
            r.float_rules@.len() == 0,
            r.taskbar_mode == TaskbarMode::Global,
    {
        Config {
            gap: 8,
            border_width: 5,
            border_active: "#5E81AC".to_owned(),
            border_inactive: "#3B4252".to_owned(),
            border_radius: 8,
            padding: Padding::default(),
            workspaces: numbered_workspaces(9),
            keybindings: default_keybindings(),
            default_layout: LayoutKind::default(),
            animations: AnimationConfig::default(),
            float_rules: Vec::new(),
            taskbar_mode: TaskbarMode::default(),
        }
    }
}

} // verus!
