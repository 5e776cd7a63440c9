//! What rules, modifiers and limits of a configuration mean.

use crate::action::Parsed;
use crate::config::{clamped_frames, rule_matches, unicode_lowercase, FloatRule};
use crate::hotkey::{no_modifiers, parse_modifiers, Modifiers};
use crate::macos::hotkeys::flag_modifiers;
use crate::text::{lower, lower_char, occurs, occurs_at};
use crate::wayland::input::bit_set;
use vstd::prelude::*;

verus! {

// ── Float rules ──────────────────────────────────────────────────────────────

/// A class or an executable is named in full: a rule matches only names of the
/// same length with the same letters, whatever their case.
pub proof fn names_are_matched_in_full(
    rule: FloatRule,
    class: Seq<char>,
    title: Seq<char>,
    exe: Seq<char>,
)
    requires
        rule_matches(rule, class, title, exe),
    ensures
        rule.class matches Some(p) ==> p@.len() == class.len() && forall|i: int|
            0 <= i < class.len() ==> lower_char(#[trigger] class[i]) == lower_char(p@[i]),
        rule.exe matches Some(p) ==> p@.len() == exe.len() && forall|i: int|
            0 <= i < exe.len() ==> lower_char(#[trigger] exe[i]) == lower_char(p@[i]),
{
    if rule.class is Some {
        let p = rule.class->0@;
        assert(lower(class).len() == lower(p).len());
        assert forall|i: int| 0 <= i < class.len() implies lower_char(#[trigger] class[i])
            == lower_char(p[i]) by {
            assert(lower(class)[i] == lower(p)[i]);
        }
    }
    if rule.exe is Some {
        let p = rule.exe->0@;
        assert(lower(exe).len() == lower(p).len());
        assert forall|i: int| 0 <= i < exe.len() implies lower_char(#[trigger] exe[i])
            == lower_char(p[i]) by {
            assert(lower(exe)[i] == lower(p)[i]);
        }
    }
}

/// The case of a window's class and executable does not matter to a rule.
pub proof fn rules_ignore_the_case_of_names(
    rule: FloatRule,
    class: Seq<char>,
    title: Seq<char>,
    exe: Seq<char>,
)
    ensures
        rule_matches(rule, lower(class), title, lower(exe)) == rule_matches(
            rule,
            class,
            title,
            exe,
        ),
{
    lemma_lower_twice(class);
    lemma_lower_twice(exe);
}

proof fn lemma_lower_twice(s: Seq<char>)
    ensures
        lower(lower(s)) == lower(s),
{
    assert forall|i: int| 0 <= i < s.len() implies lower_char(lower_char(#[trigger] s[i]))
        == lower_char(s[i]) by {
        let c = s[i];
        if 'A' <= c && c <= 'Z' {
            assert(lower_char(c) as u32 == c as u32 + 32);
        }
    }
    assert(lower(lower(s)) =~= lower(s));
}

/// A rule that asks for a part of the title alone matches exactly the titles that
/// hold it somewhere, whatever their case.
pub proof fn title_rules_match_inside(
    part: String,
    class: Seq<char>,
    title: Seq<char>,
    exe: Seq<char>,
)
    ensures
        rule_matches(
            (FloatRule { class: None, title_contains: Some(part), exe: None }),
            class,
            title,
            exe,
        ) <==> exists|a: Seq<char>, b: Seq<char>| #[trigger]
            joined_by(a, unicode_lowercase(part@), b) == unicode_lowercase(title),
{
    let needle = unicode_lowercase(part@);
    let hay = unicode_lowercase(title);
    if occurs(hay, needle) {
        let at = choose|at: int| #[trigger] occurs_at(hay, needle, at);
        let a = hay.take(at);
        let b = hay.skip(at + needle.len());
        assert(joined_by(a, needle, b) =~= hay);
    }
    if exists|a: Seq<char>, b: Seq<char>| #[trigger] joined_by(a, needle, b) == hay {
        let (a, b) = choose|a: Seq<char>, b: Seq<char>| #[trigger] joined_by(a, needle, b) == hay;
        assert(hay.subrange(a.len() as int, (a.len() + needle.len()) as int) =~= needle);
        assert(occurs_at(hay, needle, a.len() as int));
    }
}

/// Three texts in a row.
pub open spec fn joined_by(a: Seq<char>, part: Seq<char>, b: Seq<char>) -> Seq<char> {
    a + part + b
}

// ── Modifiers ────────────────────────────────────────────────────────────────

/// Modifier names add up: their order and how often each is named do not matter.
pub proof fn modifier_names_add_up(
    a: Seq<Seq<char>>,
    b: Seq<Seq<char>>,
    x: Modifiers,
    y: Modifiers,
)
    requires
        parse_modifiers(a) == Parsed::Value(x),
        parse_modifiers(b) == Parsed::Value(y),
    ensures
        parse_modifiers(a + b) matches Parsed::Value(z) && z.alt == (x.alt || y.alt) && z.ctrl == (
        x.ctrl || y.ctrl) && z.shift == (x.shift || y.shift) && z.super_key == (x.super_key
            || y.super_key),
    decreases b.len(),
{
    if b.len() == 0 {
        assert(a + b =~= a);
    } else {
        assert((a + b).drop_last() =~= a + b.drop_last());
        assert((a + b).last() == b.last());
        let z = parse_modifiers(b.drop_last())->Value_0;
        modifier_names_add_up(a, b.drop_last(), x, z);
    }
}

/// The case of modifier names does not matter.
pub proof fn modifier_names_ignore_case(names: Seq<Seq<char>>)
    ensures
        parse_modifiers(names.map_values(|s: Seq<char>| lower(s))) == parse_modifiers(names),
    decreases names.len(),
{
    let f = |s: Seq<char>| lower(s);
    let all = names.map_values(f);
    if names.len() > 0 {
        modifier_names_ignore_case(names.drop_last());
        assert(all.drop_last() =~= names.drop_last().map_values(f));
        assert(all.last() == lower(names.last()));
        lemma_lower_twice(names.last());
    } else {
        assert(all =~= names);
    }
}

/// Flags of several modifiers held at once give all of them, and no flags give
/// none.
pub proof fn event_flags_add_up(a: u64, b: u64)
    ensures
        ({
            let (x, y, z) = (flag_modifiers(a), flag_modifiers(b), flag_modifiers(a | b));
            &&& z.alt == (x.alt || y.alt)
            &&& z.ctrl == (x.ctrl || y.ctrl)
            &&& z.shift == (x.shift || y.shift)
            &&& z.super_key == (x.super_key || y.super_key)
        }),
        flag_modifiers(0) == no_modifiers(),
{
    assert(((a | b) & 0x0008_0000 != 0) == (a & 0x0008_0000 != 0 || b & 0x0008_0000 != 0))
        by (bit_vector);
    assert(((a | b) & 0x0004_0000 != 0) == (a & 0x0004_0000 != 0 || b & 0x0004_0000 != 0))
        by (bit_vector);
    assert(((a | b) & 0x0002_0000 != 0) == (a & 0x0002_0000 != 0 || b & 0x0002_0000 != 0))
        by (bit_vector);
    assert(((a | b) & 0x0010_0000 != 0) == (a & 0x0010_0000 != 0 || b & 0x0010_0000 != 0))
        by (bit_vector);
    assert(0u64 & 0x0008_0000 == 0 && 0u64 & 0x0004_0000 == 0 && 0u64 & 0x0002_0000 == 0 && 0u64
        & 0x0010_0000 == 0) by (bit_vector);
}

/// A modifier is held exactly when its own bit of the mask is set, whatever the
/// others are.
pub proof fn mask_bits_are_independent(mask: u32, i: u32, j: u32)
    requires
        i < 32,
        j < 32,
    ensures
        bit_set(mask | (1u32 << i), i),
        i != j ==> bit_set(mask | (1u32 << i), j) == bit_set(mask, j),
        !bit_set(0, i),
{
    assert((mask | (1u32 << i)) & (1u32 << i) != 0) by (bit_vector)
        requires
            i < 32,
    ;
    assert(i != j ==> ((mask | (1u32 << i)) & (1u32 << j) != 0) == (mask & (1u32 << j) != 0))
        by (bit_vector)
        requires
            i < 32,
            j < 32,
    ;
    assert(0u32 & (1u32 << i) == 0) by (bit_vector);
}

// ── Animations ───────────────────────────────────────────────────────────────

/// An animation has between one and sixty frames: as many as configured, or the
/// limit that comes nearest.
pub proof fn frames_are_limited(frames: u32)
    ensures
        1 <= clamped_frames(frames) <= 60,
        1 <= frames <= 60 ==> clamped_frames(frames) == frames,
        frames > 60 ==> clamped_frames(frames) == 60,
        frames == 0 ==> clamped_frames(frames) == 1,
{
}

} // verus!
