//! Cross-platform keybinding primitives.
//!
//! [`BindingMap`] is built from the configured keybindings and handed to each
//! platform backend.  The event loop resolves a fired [`KeybindingId`] back to
//! its [`Action`] via [`BindingMap::action`].

use crate::action::{parse_action, yields, Action, Parsed};
use crate::config::{binding_texts, texts, BindingText, Keybinding};
use crate::error::{joined, Error};
use crate::event::KeybindingId;
use crate::text::{decimal, lower, push_decimal, same, to_ascii_lowercase};
use std::str::FromStr;
use vstd::prelude::*;
use vstd::string::*;

verus! {

// ── Modifiers ────────────────────────────────────────────────────────────────

/// Platform-agnostic set of modifier keys.
#[derive(Debug, Clone, Copy, PartialEq, Eq, Structural, Hash)]
pub struct Modifiers {
    pub alt: bool,
    pub ctrl: bool,
    pub shift: bool,
    /// Windows key / Cmd key / Super key.
    pub super_key: bool,
}

/// The set without modifiers.
pub open spec fn no_modifiers() -> Modifiers {
    Modifiers { alt: false, ctrl: false, shift: false, super_key: false }
}

impl Modifiers {
    /// The modifiers of either set.
    pub open spec fn spec_union(self, other: Modifiers) -> Modifiers {
        Modifiers {
            alt: self.alt || other.alt,
            ctrl: self.ctrl || other.ctrl,
            shift: self.shift || other.shift,
            super_key: self.super_key || other.super_key,
        }
    }

    /// Every modifier of `other` is in this set.
    pub open spec fn includes(self, other: Modifiers) -> bool {
        self.spec_union(other) == self
    }

    pub fn empty() -> (r: Modifiers)
        ensures
            r == no_modifiers(),
    {
        Modifiers { alt: false, ctrl: false, shift: false, super_key: false }
    }

    #[allow(non_snake_case)]
    pub fn ALT() -> (r: Modifiers)
        ensures
            r == (Modifiers { alt: true, ..no_modifiers() }),
    {
        Modifiers { alt: true, ctrl: false, shift: false, super_key: false }
    }

    #[allow(non_snake_case)]
    pub fn CTRL() -> (r: Modifiers)
        ensures
            r == (Modifiers { ctrl: true, ..no_modifiers() }),
    {
        Modifiers { alt: false, ctrl: true, shift: false, super_key: false }
    }

    #[allow(non_snake_case)]
    pub fn SHIFT() -> (r: Modifiers)
        ensures
            r == (Modifiers { shift: true, ..no_modifiers() }),
    {
        Modifiers { alt: false, ctrl: false, shift: true, super_key: false }
    }

    #[allow(non_snake_case)]
    pub fn SUPER() -> (r: Modifiers)
        ensures
            r == (Modifiers { super_key: true, ..no_modifiers() }),
    {
        Modifiers { alt: false, ctrl: false, shift: false, super_key: true }
    }

    /// The modifiers of either set.
    pub fn union(self, other: Modifiers) -> (r: Modifiers)
        ensures
            r == self.spec_union(other),
    {
        Modifiers {
            alt: self.alt || other.alt,
            ctrl: self.ctrl || other.ctrl,
            shift: self.shift || other.shift,
            super_key: self.super_key || other.super_key,
        }
    }

    /// Whether every modifier of `other` is in this set.
    pub fn contains(&self, other: Modifiers) -> (r: bool)
        ensures
            r == self.includes(other),
    {
        self.union(other) == *self
    }

    /// Parse modifier names (case-insensitive).
    ///
    /// Accepted names: `alt`, `ctrl` / `control`, `shift`,
    /// `super` / `win` / `cmd` / `meta`.
    pub fn from_strs(names: &[String]) -> (r: Result<Self, Error>)
        ensures
            yields(r, parse_modifiers(texts(names@))),
    {
        let mut mods = Modifiers::empty();
        let mut i: usize = 0;
        assert(texts(names@).take(0) =~= Seq::<Seq<char>>::empty());
        while i < names.len()
            invariant
                i <= names@.len(),
                parse_modifiers(texts(names@).take(i as int)) == Parsed::Value(mods),
            decreases names@.len() - i,
        {
            let name = to_ascii_lowercase(names[i].as_str());
            let ghost seen = texts(names@).take(i + 1);
            assert(seen.drop_last() =~= texts(names@).take(i as int));
            assert(seen.last() == names@[i as int]@);
            match modifier_of(name.as_str()) {
                Some(m) => {
                    mods = mods.union(m);
                },
                None => {
                    proof {
                        lemma_rejected_stays(texts(names@), i + 1);
                    }
                    return Err(Error::Config(joined("unknown modifier: ", name.as_str())));
                },
            }
            i += 1;
        }
        assert(texts(names@).take(i as int) =~= texts(names@));
        Ok(mods)
    }
}

/// The modifier that a lowercase name stands for.
pub open spec fn modifier_named(name: Seq<char>) -> Option<Modifiers> {
    if name == "alt"@ {
        Some(Modifiers { alt: true, ..no_modifiers() })
    } else if name == "ctrl"@ || name == "control"@ {
        Some(Modifiers { ctrl: true, ..no_modifiers() })
    } else if name == "shift"@ {
        Some(Modifiers { shift: true, ..no_modifiers() })
    } else if name == "super"@ || name == "win"@ || name == "cmd"@ || name == "meta"@ {
        Some(Modifiers { super_key: true, ..no_modifiers() })
    } else {
        None
    }
}

/// The set that a list of names stands for, or the message for the first
/// unknown name.
pub open spec fn parse_modifiers(names: Seq<Seq<char>>) -> Parsed<Modifiers>
    decreases names.len(),
{
    if names.len() == 0 {
        Parsed::Value(no_modifiers())
    } else {
        match parse_modifiers(names.drop_last()) {
            Parsed::Rejected(m) => Parsed::Rejected(m),
            Parsed::Value(mods) => match modifier_named(lower(names.last())) {
                Some(m) => Parsed::Value(mods.spec_union(m)),
                None => Parsed::Rejected("unknown modifier: "@ + lower(names.last())),
            },
        }
    }
}

proof fn lemma_rejected_stays(names: Seq<Seq<char>>, n: int)
    requires
        0 <= n <= names.len(),
        parse_modifiers(names.take(n)) is Rejected,
    ensures
        parse_modifiers(names) == parse_modifiers(names.take(n)),
    decreases names.len(),
{
    if n < names.len() {
        assert(names.drop_last().take(n) =~= names.take(n));
        lemma_rejected_stays(names.drop_last(), n);
    } else {
        assert(names.take(n) =~= names);
    }
}

fn modifier_of(name: &str) -> (r: Option<Modifiers>)
    ensures
        r == modifier_named(name@),
{
    if same(name, "alt") {
        Some(Modifiers::ALT())
    } else if same(name, "ctrl") || same(name, "control") {
        Some(Modifiers::CTRL())
    } else if same(name, "shift") {
        Some(Modifiers::SHIFT())
    } else if same(name, "super") || same(name, "win") || same(name, "cmd") || same(name, "meta") {
        Some(Modifiers::SUPER())
    } else {
        None
    }
}

// ── Key ──────────────────────────────────────────────────────────────────────

/// A platform-agnostic key name, stored in lowercase.  Each backend translates
/// it to its own key representation.
#[derive(Debug, Clone, PartialEq, Eq, Hash)]
pub struct Key(pub String);

impl Key {
    pub fn new(s: &str) -> (r: Self)
        ensures
            r.0@ == lower(s@),
    {
        Self(to_ascii_lowercase(s))
    }
}

/// The key name that a text stands for.
pub open spec fn parse_key(s: Seq<char>) -> Parsed<Seq<char>> {
    if s.len() == 0 {
        Parsed::Rejected("key name cannot be empty"@)
    } else {
        Parsed::Value(lower(s))
    }
}

impl FromStr for Key {
    type Err = Error;

    fn from_str(s: &str) -> (r: Result<Self, Error>)
        ensures
            match r {
                Ok(k) => parse_key(s@) == Parsed::Value(k.0@),
                Err(e) => parse_key(s@) matches Parsed::Rejected(m)
                    && crate::error::is_config_error(e, m),
            },
    {
        let k = to_ascii_lowercase(s);
        if k.as_str().is_empty() {
            return Err(Error::Config("key name cannot be empty".to_owned()));
        }
        Ok(Key(k))
    }
}

// ── KeyCombo ─────────────────────────────────────────────────────────────────

/// A fully-qualified hotkey: modifier set and key name.
#[derive(Debug, Clone, PartialEq, Eq, Hash)]
pub struct KeyCombo {
    pub modifiers: Modifiers,
    pub key: Key,
}

impl View for KeyCombo {
    type V = (Modifiers, Seq<char>);

    open spec fn view(&self) -> (Modifiers, Seq<char>) {
        (self.modifiers, self.key.0@)
    }
}

impl KeyCombo {
    /// Whether two hotkeys are the same.
    pub fn same_as(&self, other: &KeyCombo) -> (r: bool)
        ensures
            r == (self@ == other@),
    {
        self.modifiers == other.modifiers && self.key.0 == other.key.0
    }
}

// ── BindingMap ───────────────────────────────────────────────────────────────

/// One compiled keybinding.
pub struct Binding {
    pub id: KeybindingId,
    pub combo: (Modifiers, Seq<char>),
    pub action: Action,
}

/// The message of an error in declaration `i`.
pub open spec fn binding_error(i: int, message: Seq<char>) -> Seq<char> {
    "keybinding ["@ + decimal(i as nat) + "]: "@ + ("config error: "@ + message)
}

/// Compile declaration `i`: modifiers first, then key, then action.
pub open spec fn parse_binding(i: int, kb: BindingText) -> Parsed<Binding> {
    match parse_modifiers(kb.modifiers) {
        Parsed::Rejected(m) => Parsed::Rejected(binding_error(i, m)),
        Parsed::Value(modifiers) => match parse_key(kb.key) {
            Parsed::Rejected(m) => Parsed::Rejected(binding_error(i, m)),
            Parsed::Value(key) => match parse_action(kb.action) {
                Parsed::Rejected(m) => Parsed::Rejected(binding_error(i, m)),
                Parsed::Value(action) => Parsed::Value(
                    Binding { id: KeybindingId(i as u32), combo: (modifiers, key), action },
                ),
            },
        },
    }
}

/// Compile a list of declarations, or give the message for the first bad one.
pub open spec fn parse_bindings(kbs: Seq<BindingText>) -> Parsed<Seq<Binding>>
    decreases kbs.len(),
{
    if kbs.len() == 0 {
        Parsed::Value(seq![])
    } else {
        match parse_bindings(kbs.drop_last()) {
            Parsed::Rejected(m) => Parsed::Rejected(m),
            Parsed::Value(bs) => match parse_binding(kbs.len() - 1, kbs.last()) {
                Parsed::Rejected(m) => Parsed::Rejected(m),
                Parsed::Value(b) => Parsed::Value(bs.push(b)),
            },
        }
    }
}

proof fn lemma_bad_binding_stays(kbs: Seq<BindingText>, n: int)
    requires
        0 <= n <= kbs.len(),
        parse_bindings(kbs.take(n)) is Rejected,
    ensures
        parse_bindings(kbs) == parse_bindings(kbs.take(n)),
    decreases kbs.len(),
{
    if n < kbs.len() {
        assert(kbs.drop_last().take(n) =~= kbs.take(n));
        lemma_bad_binding_stays(kbs.drop_last(), n);
    } else {
        assert(kbs.take(n) =~= kbs);
    }
}

/// The error for declaration `i` that `e` causes.
fn in_binding(i: usize, e: &Error) -> (r: Error)
    requires
        e is Config,
    ensures
        crate::error::is_config_error(r, binding_error(i as int, e->Config_0@)),
{
    let mut out = "keybinding [".to_owned();
    push_decimal(&mut out, i as u64);
    out.append("]: ");
    let text = e.to_string();
    out.append(text.as_str());
    Error::Config(out)
}

/// Compiled, ready-to-register keybinding table.
pub struct BindingMap {
    bindings: Vec<(KeybindingId, KeyCombo, Action)>,
}

impl View for BindingMap {
    type V = Seq<Binding>;

    closed spec fn view(&self) -> Seq<Binding> {
        Seq::new(
            self.bindings@.len(),
            |i: int|
                Binding {
                    id: self.bindings@[i].0,
                    combo: self.bindings@[i].1@,
                    action: self.bindings@[i].2,
                },
        )
    }
}

/// The first binding of `combo` in a table.
pub open spec fn first_binding(bs: Seq<Binding>, combo: (Modifiers, Seq<char>), i: int) -> bool {
    &&& 0 <= i < bs.len()
    &&& bs[i].combo == combo
    &&& forall|j: int| 0 <= j < i ==> (#[trigger] bs[j]).combo != combo
}

impl BindingMap {
    /// Parse and validate all keybindings from the raw config; the first error
    /// is reported.
    pub fn from_config(keybindings: &[Keybinding]) -> (r: Result<Self, Error>)
        ensures
            match r {
                Ok(map) => parse_bindings(binding_texts(keybindings@)) == Parsed::Value(map@),
                Err(e) => parse_bindings(binding_texts(keybindings@)) matches Parsed::Rejected(m)
                    && crate::error::is_config_error(e, m),
            },
    {
        let ghost kbs = binding_texts(keybindings@);
        let mut map = BindingMap { bindings: Vec::new() };
        let mut i: usize = 0;
        assert(kbs.take(0) =~= Seq::<BindingText>::empty());
        assert(map@ =~= Seq::<Binding>::empty());
        while i < keybindings.len()
            invariant
                i <= keybindings@.len(),
                kbs == binding_texts(keybindings@),
                parse_bindings(kbs.take(i as int)) == Parsed::Value(map@),
            decreases keybindings@.len() - i,
        {
            let kb = &keybindings[i];
            let ghost seen = kbs.take(i + 1);
            assert(seen.drop_last() =~= kbs.take(i as int));
            assert(seen.last() == kb@);
            let modifiers = match Modifiers::from_strs(kb.modifiers.as_slice()) {
                Ok(m) => m,
                Err(e) => {
                    proof {
                        lemma_bad_binding_stays(kbs, i + 1);
                    }
                    return Err(in_binding(i, &e));
                },
            };
            let key = match Key::from_str(kb.key.as_str()) {
                Ok(k) => k,
                Err(e) => {
                    proof {
                        lemma_bad_binding_stays(kbs, i + 1);
                    }
                    return Err(in_binding(i, &e));
                },
            };
            let action = match Action::from_str(kb.action.as_str()) {
                Ok(a) => a,
                Err(e) => {
                    proof {
                        lemma_bad_binding_stays(kbs, i + 1);
                    }
                    return Err(in_binding(i, &e));
                },
            };
            let ghost before = map@;
            map.bindings.push((KeybindingId(i as u32), KeyCombo { modifiers, key }, action));
            assert(map@ =~= before.push(
                Binding { id: KeybindingId(i as u32), combo: (modifiers, key.0@), action },
            ));
            i += 1;
        }
        assert(kbs.take(i as int) =~= kbs);
        Ok(map)
    }

    /// All registered bindings, in order.
    pub fn iter(&self) -> (r: Vec<(KeybindingId, &KeyCombo, &Action)>)
        ensures
            r@.len() == self@.len(),
            forall|i: int|
                0 <= i < r@.len() ==> {
                    &&& (#[trigger] r@[i]).0 == self@[i].id
                    &&& r@[i].1@ == self@[i].combo
                    &&& *r@[i].2 == self@[i].action
                },
    {
        let mut r: Vec<(KeybindingId, &KeyCombo, &Action)> = Vec::new();
        let mut i: usize = 0;
        while i < self.bindings.len()
            invariant
                i <= self.bindings@.len(),
                r@.len() == i,
                forall|j: int|
                    0 <= j < i ==> {
                        &&& (#[trigger] r@[j]).0 == self@[j].id
                        &&& r@[j].1@ == self@[j].combo
                        &&& *r@[j].2 == self@[j].action
                    },
            decreases self.bindings@.len() - i,
        {
            let b = &self.bindings[i];
            r.push((b.0, &b.1, &b.2));
            i += 1;
        }
        r
    }

    /// The action for a fired keybinding.
    pub fn action(&self, id: KeybindingId) -> (r: Option<&Action>)
        ensures
            match r {
                Some(a) => id.0 < self@.len() && *a == self@[id.0 as int].action,
                None => id.0 >= self@.len(),
            },
    {
        let i = id.0 as usize;
        if i < self.bindings.len() {
            Some(&self.bindings[i].2)
        } else {
            None
        }
    }

    /// The keybinding for a given hotkey: the first one that declares it.
    pub fn id_for_combo(&self, combo: &KeyCombo) -> (r: Option<KeybindingId>)
        ensures
            match r {
                Some(id) => exists|i: int|
                    #[trigger] first_binding(self@, combo@, i) && self@[i].id == id,
                None => forall|i: int| 0 <= i < self@.len() ==> (#[trigger] self@[i]).combo != combo@,
            },
    {
        let mut i: usize = 0;
        while i < self.bindings.len()
            invariant
                i <= self.bindings@.len(),
                forall|j: int| 0 <= j < i ==> (#[trigger] self@[j]).combo != combo@,
            decreases self.bindings@.len() - i,
        {
            if self.bindings[i].1.same_as(combo) {
                assert(first_binding(self@, combo@, i as int));
                return Some(self.bindings[i].0);
            }
            i += 1;
        }
        None
    }

    pub fn is_empty(&self) -> (r: bool)
        ensures
            r == (self@.len() == 0),
    {
        self.bindings.len() == 0
    }

    pub fn len(&self) -> (r: usize)
        ensures
            r == self@.len(),
    {
        self.bindings.len()
    }
}

} // verus!
