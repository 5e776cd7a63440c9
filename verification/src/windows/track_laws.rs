//! What each native event leads to, told by the window that it is about.

use crate::action::Parsed;
use crate::config::FloatRule;
use crate::event::Event;
use crate::geometry::{expand_fits, expanded_rect};
use crate::hotkey::{Binding, Modifiers};
use crate::window::Rect;
use crate::windows::backend::{index_of, lemma_index_of, on_event, Reaction, Roster};
use crate::windows::hotkeys::{
    entries_of, entry_of, matching_entry, modifier_bits, virtual_key, HotkeyEntry,
};
use crate::windows::messages::NativeEvent;
use crate::windows::native::{
    edges_fit, edges_rect, floats, manageable, visible_part, Edges, NativeWindow,
};
use crate::windows::number_laws::numbered;
use crate::windows::window::WindowsWindow;
use vstd::prelude::*;

verus! {

// ── Tracked windows ──────────────────────────────────────────────────────────

proof fn lemma_tracked_at(ws: Seq<WindowsWindow>, next_id: u64, i: int)
    requires
        numbered(ws, next_id),
        0 <= i < ws.len(),
    ensures
        index_of(ws, ws[i].hwnd, false, ws.len() as int) == Some(i),
        index_of(ws, ws[i].hwnd, true, ws.len() as int) == (if ws[i].wm_hidden {
            None
        } else {
            Some(i)
        }),
{
    let n = ws.len() as int;
    let hwnd = ws[i].hwnd;
    lemma_index_of(ws, hwnd, false, n);
    lemma_index_of(ws, hwnd, true, n);
    let a = index_of(ws, hwnd, false, n);
    if a is Some && a->0 != i {
        if a->0 < i {
            assert(ws[a->0].hwnd != ws[i].hwnd);
        } else {
            assert(ws[i].hwnd != ws[a->0].hwnd);
        }
    }
    let b = index_of(ws, hwnd, true, n);
    if b is Some && b->0 != i {
        if b->0 < i {
            assert(ws[b->0].hwnd != ws[i].hwnd);
        } else {
            assert(ws[i].hwnd != ws[b->0].hwnd);
        }
    }
}

/// An event of a tracked window is reported under that window's own number, and
/// no other tracked window changes: the focus, being minimised or restored, the
/// end of a drag, whose place is taken over, and the window's end.
pub proof fn events_are_reported_for_their_window(
    ws: Seq<WindowsWindow>,
    next_id: u64,
    rules: Seq<FloatRule>,
    i: int,
    seen: Option<NativeWindow>,
    e: Edges,
)
    requires
        numbered(ws, next_id),
        0 <= i < ws.len(),
        edges_fit(e),
        e.left <= e.right,
        e.top <= e.bottom,
    ensures
        ({
            let hwnd = ws[i].hwnd;
            let id = ws[i].id;
            let after = |event: NativeEvent| on_event(
                ws,
                next_id,
                rules,
                event,
                hwnd,
                seen,
                Some(e),
            );
            let focused = after(NativeEvent::Focused);
            let minimised = after(NativeEvent::MinimizeChange);
            let dragged = after(NativeEvent::MoveSizeEnd);
            let gone = after(NativeEvent::Destroyed);
            &&& focused.reaction == Reaction::Emit(Event::WindowFocused(id))
            &&& focused.windows == ws && focused.next_id == next_id
            &&& minimised.reaction == Reaction::Emit(Event::WindowMinimizeChanged { id })
            &&& minimised.windows == ws
            &&& dragged.reaction == Reaction::Emit(Event::WindowMoved { id })
            &&& dragged.windows.len() == ws.len()
            &&& dragged.windows[i].geometry.x == e.left && dragged.windows[i].geometry.y == e.top
            &&& dragged.windows[i].geometry.x + dragged.windows[i].geometry.width == e.right
            &&& dragged.windows[i].geometry.y + dragged.windows[i].geometry.height == e.bottom
            &&& dragged.windows[i].id == id
            &&& forall|k: int|
                0 <= k < ws.len() && k != i ==> #[trigger] dragged.windows[k] == ws[k]
            &&& gone.reaction == Reaction::Forget { id, overlay: ws[i].overlay_hwnd }
            &&& gone.windows == ws.remove(i)
        }),
{
    lemma_tracked_at(ws, next_id, i);
}

/// A window that shows itself while the manager keeps it hidden is hidden again;
/// any other tracked window may show itself.
pub proof fn hidden_windows_stay_hidden(
    ws: Seq<WindowsWindow>,
    next_id: u64,
    rules: Seq<FloatRule>,
    i: int,
    seen: Option<NativeWindow>,
)
    requires
        numbered(ws, next_id),
        0 <= i < ws.len(),
    ensures
        ({
            let t = on_event(ws, next_id, rules, NativeEvent::Shown, ws[i].hwnd, seen, None);
            &&& t.windows == ws && t.next_id == next_id
            &&& t.reaction == (if ws[i].wm_hidden {
                Reaction::Rehide { hwnd: ws[i].hwnd }
            } else {
                Reaction::Wait
            })
        }),
{
    lemma_tracked_at(ws, next_id, i);
}

/// Of a window that the manager keeps hidden, neither a change of place nor its
/// own hiding counts.
pub proof fn hidden_windows_are_not_followed(
    ws: Seq<WindowsWindow>,
    next_id: u64,
    rules: Seq<FloatRule>,
    i: int,
    edges: Option<Edges>,
)
    requires
        numbered(ws, next_id),
        0 <= i < ws.len(),
        ws[i].wm_hidden,
    ensures
        on_event(ws, next_id, rules, NativeEvent::LocationChange, ws[i].hwnd, None, edges)
            == (Roster { windows: ws, next_id, reaction: Reaction::Wait }),
        on_event(ws, next_id, rules, NativeEvent::AppHidden, ws[i].hwnd, None, edges) == (Roster {
            windows: ws,
            next_id,
            reaction: Reaction::Wait,
        }),
{
    lemma_tracked_at(ws, next_id, i);
}

/// A tiled window on show is reported as resized from outside exactly when a side
/// changed by more than sixteen pixels; then its new place is taken over, else
/// its old one is kept.
pub proof fn large_changes_of_size_are_reported(
    ws: Seq<WindowsWindow>,
    next_id: u64,
    rules: Seq<FloatRule>,
    i: int,
    e: Edges,
)
    requires
        numbered(ws, next_id),
        0 <= i < ws.len(),
        !ws[i].wm_hidden,
        !ws[i].floating,
        edges_fit(e),
        e.left <= e.right,
        e.top <= e.bottom,
        ws[i].geometry.width <= i32::MAX,
        ws[i].geometry.height <= i32::MAX,
    ensures
        ({
            let old = ws[i].geometry;
            let dw = (e.right - e.left) - old.width;
            let dh = (e.bottom - e.top) - old.height;
            let large = dw > 16 || dw < -16 || dh > 16 || dh < -16;
            let t = on_event(
                ws,
                next_id,
                rules,
                NativeEvent::LocationChange,
                ws[i].hwnd,
                None,
                Some(e),
            );
            &&& large ==> t.reaction == Reaction::Emit(
                Event::WindowSizeChanged { id: ws[i].id },
            ) && t.windows[i].geometry.x == e.left && t.windows[i].geometry.y == e.top
                && t.windows[i].geometry.width == e.right - e.left && t.windows[i].geometry.height
                == e.bottom - e.top
            &&& !large ==> t.reaction == Reaction::Wait && t.windows[i].geometry == old
        }),
{
    lemma_tracked_at(ws, next_id, i);
}

/// The border of a floating window on show follows its every change of place.
pub proof fn borders_follow_floating_windows(
    ws: Seq<WindowsWindow>,
    next_id: u64,
    rules: Seq<FloatRule>,
    i: int,
    e: Edges,
)
    requires
        numbered(ws, next_id),
        0 <= i < ws.len(),
        !ws[i].wm_hidden,
        ws[i].floating,
        ws[i].overlay_hwnd != 0,
        edges_fit(e),
        e.left <= e.right,
        e.top <= e.bottom,
        e.left != ws[i].geometry.x || e.top != ws[i].geometry.y,
    ensures
        ({
            let t = on_event(
                ws,
                next_id,
                rules,
                NativeEvent::LocationChange,
                ws[i].hwnd,
                None,
                Some(e),
            );
            &&& t.reaction == Reaction::MoveOverlay { id: ws[i].id }
            &&& t.windows[i].geometry.x == e.left && t.windows[i].geometry.y == e.top
        }),
{
    lemma_tracked_at(ws, next_id, i);
}

/// A window that is not tracked is taken in when it is shown or gets the focus,
/// if it is to be managed, and starts out floating where it should; any other
/// event of it is passed over.
pub proof fn untracked_windows_are_taken_in(
    ws: Seq<WindowsWindow>,
    next_id: u64,
    rules: Seq<FloatRule>,
    w: NativeWindow,
    focused: bool,
)
    requires
        next_id < u64::MAX,
        forall|k: int| 0 <= k < ws.len() ==> (#[trigger] ws[k]).hwnd != w.hwnd,
        w.title@.len() > 0,
        w.edges is Some,
    ensures
        ({
            let event = if focused {
                NativeEvent::Focused
            } else {
                NativeEvent::Shown
            };
            let t = on_event(ws, next_id, rules, event, w.hwnd, Some(w), w.edges);
            &&& manageable(w) ==> {
                &&& t.windows.len() == ws.len() + 1
                &&& t.windows.last().hwnd == w.hwnd
                &&& t.windows.last().floating == floats(w, rules)
                &&& t.windows.last().geometry == edges_rect(w.edges->0)
                &&& !t.windows.last().wm_hidden
                &&& t.reaction == Reaction::Adopt {
                    id: t.windows.last().id,
                    hwnd: w.hwnd,
                    floating: floats(w, rules),
                }
            }
            &&& !manageable(w) ==> t == (Roster {
                windows: ws,
                next_id,
                reaction: Reaction::Wait,
            })
        }),
{
    lemma_index_of(ws, w.hwnd, false, ws.len() as int);
}

// ── Edges and borders ────────────────────────────────────────────────────────

/// A native rectangle and its measure have the same edges.
pub proof fn edges_are_kept(e: Edges)
    requires
        edges_fit(e),
        e.left <= e.right,
        e.top <= e.bottom,
    ensures
        ({
            let r = edges_rect(e);
            r.x == e.left && r.y == e.top && r.x + r.width == e.right && r.y + r.height == e.bottom
        }),
{
}

/// The visible part of a window is the frame that the compositor reports, if
/// that has any area, else its geometry.
pub proof fn the_frame_is_the_visible_part(frame: Option<Edges>, geometry: Rect)
    ensures
        match frame {
            Some(e) if e.left < e.right && e.top < e.bottom => visible_part(frame, geometry)
                == edges_rect(e),
            _ => visible_part(frame, geometry) == geometry,
        },
{
}

/// A border of `b` pixels reaches that far beyond every edge of its window.
pub proof fn borders_surround_their_window(r: Rect, b: i32)
    requires
        b >= 0,
        expand_fits(r, b),
        r.width <= i32::MAX,
        r.height <= i32::MAX,
    ensures
        ({
            let q = expanded_rect(r, b);
            &&& r.x - q.x == b
            &&& r.y - q.y == b
            &&& (q.x + q.width) - (r.x + r.width) == b
            &&& (q.y + q.height) - (r.y + r.height) == b
        }),
{
}

// ── Key presses ──────────────────────────────────────────────────────────────

/// Only the entries looked at count.
proof fn lemma_matching_prefix(a: Seq<HotkeyEntry>, b: Seq<HotkeyEntry>, vk: u16, mods: u32, n: int)
    requires
        0 <= n <= a.len(),
        n <= b.len(),
        forall|i: int| 0 <= i < n ==> #[trigger] a[i] == b[i],
    ensures
        matching_entry(a, vk, mods, n) == matching_entry(b, vk, mods, n),
    decreases n,
{
    if n > 0 {
        lemma_matching_prefix(a, b, vk, mods, n - 1);
        assert(a[n - 1] == b[n - 1]);
    }
}

/// Of several bindings that declare the same key press the first one fires: the
/// first with exactly the modifiers held and the code of the key pressed.
pub proof fn the_first_declaration_fires(bs: Seq<Binding>, vk: u16, held: Modifiers, j: int)
    requires
        0 <= j < bs.len(),
        bs[j].combo.0 == held,
        virtual_key(bs[j].combo.1) == Parsed::Value(vk),
        forall|k: int|
            0 <= k < j ==> !((#[trigger] bs[k]).combo.0 == held && virtual_key(bs[k].combo.1)
                == Parsed::Value(vk)),
    ensures
        matching_entry(
            entries_of(bs),
            vk,
            modifier_bits(held) as u32,
            entries_of(bs).len() as int,
        ) matches Some(e) && e.id == bs[j].id,
    decreases bs.len(),
{
    let es = entries_of(bs);
    let rest = bs.drop_last();
    let before = entries_of(rest);
    let mods = modifier_bits(held) as u32;
    let n = before.len() as int;
    lemma_matching_prefix(es, before, vk, mods, n);
    if j < bs.len() - 1 {
        assert(rest[j] == bs[j]);
        assert forall|k: int| 0 <= k < j implies !((#[trigger] rest[k]).combo.0 == held
            && virtual_key(rest[k].combo.1) == Parsed::Value(vk)) by {
            assert(rest[k] == bs[k]);
        }
        the_first_declaration_fires(rest, vk, held, j);
    } else {
        assert forall|k: int| 0 <= k < rest.len() implies !((#[trigger] rest[k]).combo.0 == held
            && virtual_key(rest[k].combo.1) == Parsed::Value(vk)) by {
            assert(rest[k] == bs[k]);
        }
        lemma_nothing_fires(rest, vk, held);
        assert(es == before.push(entry_of(bs.last())->0));
    }
}

proof fn lemma_nothing_fires(bs: Seq<Binding>, vk: u16, held: Modifiers)
    requires
        forall|k: int|
            0 <= k < bs.len() ==> !((#[trigger] bs[k]).combo.0 == held && virtual_key(
                bs[k].combo.1,
            ) == Parsed::Value(vk)),
    ensures
        matching_entry(
            entries_of(bs),
            vk,
            modifier_bits(held) as u32,
            entries_of(bs).len() as int,
        ) is None,
{
    crate::windows::hotkeys::presses_fire_what_they_declare(bs, vk, held);
}

} // verus!
