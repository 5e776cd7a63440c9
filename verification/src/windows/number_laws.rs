//! What holds of the numbers of windows over the life of a backend.

use crate::config::FloatRule;
use crate::event::Event;
use crate::window::WindowId;
use crate::windows::backend::{
    adopted, adopted_all, index_of, lemma_index_of, message_ready, native_ready, on_event,
    on_message_outcome, reported, tracks, Reaction, WindowsBackend,
};
use crate::windows::messages::{carried_event, Message, NativeEvent};
use crate::windows::native::{manageable, Edges, NativeWindow};
use crate::windows::window::WindowsWindow;
use vstd::prelude::*;

verus! {

/// Tracked windows are numbered in the order in which they were taken in, below
/// the next number, and no handle is tracked twice.
pub open spec fn numbered(ws: Seq<WindowsWindow>, next_id: u64) -> bool {
    &&& forall|i: int| 0 <= i < ws.len() ==> (#[trigger] ws[i]).id.0 < next_id
    &&& forall|i: int, j: int|
        0 <= i < j < ws.len() ==> (#[trigger] ws[i]).id.0 < (#[trigger] ws[j]).id.0
    &&& forall|i: int, j: int|
        0 <= i < j < ws.len() ==> (#[trigger] ws[i]).hwnd != (#[trigger] ws[j]).hwnd
}

proof fn lemma_adopted_numbered(
    ws: Seq<WindowsWindow>,
    next_id: u64,
    rules: Seq<FloatRule>,
    seen: Option<NativeWindow>,
)
    requires
        numbered(ws, next_id),
        seen matches Some(w) ==> manageable(w) ==> next_id < u64::MAX,
        seen matches Some(w) ==> forall|i: int|
            0 <= i < ws.len() ==> (#[trigger] ws[i]).hwnd != w.hwnd,
    ensures
        ({
            let t = adopted(ws, next_id, rules, seen);
            &&& numbered(t.windows, t.next_id)
            &&& next_id <= t.next_id
        }),
{
}

/// Numbers are never reused: whatever event comes, the next number never falls,
/// every tracked window has a smaller one of its own, and a window that is taken
/// in gets one that no window had.
pub proof fn numbers_are_never_reused(
    ws: Seq<WindowsWindow>,
    next_id: u64,
    rules: Seq<FloatRule>,
    event: NativeEvent,
    hwnd: isize,
    seen: Option<NativeWindow>,
    edges: Option<Edges>,
)
    requires
        numbered(ws, next_id),
        native_ready(ws, next_id, event, hwnd, seen, edges),
        seen matches Some(w) ==> w.hwnd == hwnd,
    ensures
        ({
            let t = on_event(ws, next_id, rules, event, hwnd, seen, edges);
            &&& numbered(t.windows, t.next_id)
            &&& next_id <= t.next_id
            &&& t.reaction matches Reaction::Adopt { id, .. } ==> id.0 == next_id && t.next_id
                > next_id
        }),
{
    let n = ws.len() as int;
    lemma_index_of(ws, hwnd, false, n);
    lemma_index_of(ws, hwnd, true, n);
    if index_of(ws, hwnd, false, n) is None && (event is Shown || event is Focused) {
        lemma_adopted_numbered(ws, next_id, rules, seen);
    }
    if event is Destroyed && index_of(ws, hwnd, false, n) is Some {
        let i = index_of(ws, hwnd, false, n)->0;
        let t = ws.remove(i);
        assert forall|a: int, b: int| 0 <= a < b < t.len() implies (#[trigger] t[a]).id.0 < (
        #[trigger] t[b]).id.0 && t[a].hwnd != t[b].hwnd by {
            let x = if a < i {
                a
            } else {
                a + 1
            };
            let y = if b < i {
                b
            } else {
                b + 1
            };
            assert(t[a] == ws[x] && t[b] == ws[y]);
        }
        assert forall|a: int| 0 <= a < t.len() implies (#[trigger] t[a]).id.0 < next_id by {
            let x = if a < i {
                a
            } else {
                a + 1
            };
            assert(t[a] == ws[x]);
        }
    }
}

/// A window whose end was reported is not tracked any more, and no event is
/// reported of its handle until it is taken in again.
pub proof fn forgotten_windows_are_silent(
    ws: Seq<WindowsWindow>,
    next_id: u64,
    rules: Seq<FloatRule>,
    hwnd: isize,
    later: NativeEvent,
    edges: Option<Edges>,
)
    requires
        numbered(ws, next_id),
        !(later is SettingsChanged),
    ensures
        ({
            let t = on_event(ws, next_id, rules, NativeEvent::Destroyed, hwnd, None, None);
            on_event(t.windows, t.next_id, rules, later, hwnd, None, edges).reaction
                == Reaction::Wait
        }),
{
    let n = ws.len() as int;
    lemma_index_of(ws, hwnd, false, n);
    let t = on_event(ws, next_id, rules, NativeEvent::Destroyed, hwnd, None, None);
    if index_of(ws, hwnd, false, n) is Some {
        let i = index_of(ws, hwnd, false, n)->0;
        assert forall|a: int| 0 <= a < t.windows.len() implies (#[trigger] t.windows[a]).hwnd
            != hwnd by {
            let x = if a < i {
                a
            } else {
                a + 1
            };
            assert(t.windows[a] == ws[x]);
        }
    }
    lemma_index_of(t.windows, hwnd, false, t.windows.len() as int);
    lemma_index_of(t.windows, hwnd, true, t.windows.len() as int);
}

// ── Over the life of a backend ───────────────────────────────────────────────

/// What the system reports along with a message is about the message's window.
pub open spec fn about_its_window(message: Message, seen: Option<NativeWindow>) -> bool {
    message matches Message::WindowEvent { number, hwnd } ==> (seen matches Some(w) ==> w.hwnd
        == hwnd)
}

/// `c` is `b` after a message.
pub open spec fn after_message(
    b: WindowsBackend,
    c: WindowsBackend,
    status: i32,
    message: Message,
    seen: Option<NativeWindow>,
    edges: Option<Edges>,
) -> bool {
    &&& message_ready(b, message, seen, edges)
    &&& about_its_window(message, seen)
    &&& tracks(b, c, on_message_outcome(b, status, message, seen, edges))
}

/// `c` is `b` after the native windows `found`, each with a handle of its own
/// that is not tracked yet, were taken in.
pub open spec fn after_enumeration(
    b: WindowsBackend,
    c: WindowsBackend,
    found: Seq<NativeWindow>,
) -> bool {
    &&& b.next_id + found.len() <= u64::MAX
    &&& forall|i: int, j: int|
        0 <= i < j < found.len() ==> (#[trigger] found[i]).hwnd != (#[trigger] found[j]).hwnd
    &&& forall|i: int, j: int|
        0 <= i < b.windows@.len() && 0 <= j < found.len() ==> (#[trigger] b.windows@[i]).hwnd != (
        #[trigger] found[j]).hwnd
    &&& tracks(
        b,
        c,
        adopted_all(b.windows@, b.next_id, b.float_rules@, found, found.len() as int),
    )
}

/// `c` tracks the windows of `b`, whatever else became of them.
pub open spec fn same_numbers(b: WindowsBackend, c: WindowsBackend) -> bool {
    &&& c.next_id == b.next_id
    &&& c.windows@.len() == b.windows@.len()
    &&& forall|i: int|
        0 <= i < b.windows@.len() ==> (#[trigger] c.windows@[i]).id == b.windows@[i].id
            && c.windows@[i].hwnd == b.windows@[i].hwnd
}

/// `c` can follow on `b`: after a message, after windows were taken in, or after
/// a change to the tracked windows.
pub open spec fn follows(b: WindowsBackend, c: WindowsBackend) -> bool {
    ||| exists|status: i32, message: Message, seen: Option<NativeWindow>, edges: Option<Edges>|
        #[trigger] after_message(b, c, status, message, seen, edges)
    ||| exists|found: Seq<NativeWindow>| #[trigger] after_enumeration(b, c, found)
    ||| same_numbers(b, c)
}

/// The states of a backend from its start on, each following on the one before.
pub open spec fn is_life(life: Seq<WindowsBackend>) -> bool {
    &&& life.len() >= 1
    &&& life[0].windows@ == Seq::<WindowsWindow>::empty()
    &&& forall|i: int| 0 <= i < life.len() - 1 ==> #[trigger] follows(life[i], life[i + 1])
}

proof fn lemma_enumeration(b: WindowsBackend, found: Seq<NativeWindow>, n: int)
    requires
        numbered(b.windows@, b.next_id),
        0 <= n <= found.len(),
        b.next_id + found.len() <= u64::MAX,
        forall|i: int, j: int|
            0 <= i < j < found.len() ==> (#[trigger] found[i]).hwnd != (#[trigger] found[j]).hwnd,
        forall|i: int, j: int|
            0 <= i < b.windows@.len() && 0 <= j < found.len() ==> (#[trigger] b.windows@[i]).hwnd
                != (#[trigger] found[j]).hwnd,
    ensures
        ({
            let t = adopted_all(b.windows@, b.next_id, b.float_rules@, found, n);
            &&& numbered(t.windows, t.next_id)
            &&& b.next_id <= t.next_id <= b.next_id + n
            &&& forall|i: int, j: int|
                0 <= i < t.windows.len() && n <= j < found.len() ==> (
                #[trigger] t.windows[i]).hwnd != (#[trigger] found[j]).hwnd
        }),
    decreases n,
{
    if n > 0 {
        lemma_enumeration(b, found, n - 1);
        let before = adopted_all(b.windows@, b.next_id, b.float_rules@, found, n - 1);
        lemma_adopted_numbered(
            before.windows,
            before.next_id,
            b.float_rules@,
            Some(found[n - 1]),
        );
    }
}

proof fn lemma_message(
    b: WindowsBackend,
    status: i32,
    message: Message,
    seen: Option<NativeWindow>,
    edges: Option<Edges>,
)
    requires
        numbered(b.windows@, b.next_id),
        message_ready(b, message, seen, edges),
        about_its_window(message, seen),
    ensures
        ({
            let t = on_message_outcome(b, status, message, seen, edges);
            &&& numbered(t.windows, t.next_id)
            &&& b.next_id <= t.next_id
            &&& reported(t.reaction) matches Some(Event::WindowCreated(id)) ==> {
                &&& id.0 == b.next_id
                &&& t.windows.len() == b.windows@.len() + 1
                &&& t.windows.drop_last() == b.windows@
                &&& t.windows.last().id == id
            }
        }),
{
    if status != 0 {
        if let Message::WindowEvent { number, hwnd } = message {
            if let Some(event) = carried_event(number) {
                numbers_are_never_reused(
                    b.windows@,
                    b.next_id,
                    b.float_rules@,
                    event,
                    hwnd,
                    seen,
                    edges,
                );
                let t = on_message_outcome(b, status, message, seen, edges);
                if t.reaction is Adopt {
                    assert(t.windows.drop_last() =~= b.windows@);
                }
            }
        }
    }
}

proof fn lemma_follows(b: WindowsBackend, c: WindowsBackend)
    requires
        numbered(b.windows@, b.next_id),
        follows(b, c),
    ensures
        numbered(c.windows@, c.next_id),
        b.next_id <= c.next_id,
{
    if exists|status: i32, message: Message, seen: Option<NativeWindow>, edges: Option<Edges>|
        #[trigger] after_message(b, c, status, message, seen, edges) {
        let (status, message, seen, edges) = choose|
            status: i32,
            message: Message,
            seen: Option<NativeWindow>,
            edges: Option<Edges>,
        | #[trigger] after_message(b, c, status, message, seen, edges);
        lemma_message(b, status, message, seen, edges);
    } else if exists|found: Seq<NativeWindow>| #[trigger] after_enumeration(b, c, found) {
        let found = choose|found: Seq<NativeWindow>| #[trigger] after_enumeration(b, c, found);
        lemma_enumeration(b, found, found.len() as int);
    } else {
        assert forall|i: int, j: int| 0 <= i < j < c.windows@.len() implies (
        #[trigger] c.windows@[i]).id.0 < (#[trigger] c.windows@[j]).id.0 && c.windows@[i].hwnd
            != c.windows@[j].hwnd by {
            assert(b.windows@[i].id.0 < b.windows@[j].id.0);
        }
    }
}

/// At every moment of its life a backend's windows are numbered below the next
/// number, and the next number never falls.
proof fn lemma_life(life: Seq<WindowsBackend>, i: int, j: int)
    requires
        is_life(life),
        0 <= i <= j < life.len(),
    ensures
        numbered(life[j].windows@, life[j].next_id),
        life[i].next_id <= life[j].next_id,
    decreases j,
{
    if j > 0 {
        lemma_life(life, if i < j {
            i
        } else {
            j - 1
        }, j - 1);
        assert(follows(life[j - 1], life[j - 1 + 1]));
        lemma_follows(life[j - 1], life[j]);
    }
}

/// A window that is reported as created gets a number that no window of this
/// backend has or ever had, destroyed ones included.  It joins the tracked
/// windows at the end, and no other tracked window has its handle.
pub proof fn new_windows_get_new_numbers(
    life: Seq<WindowsBackend>,
    status: i32,
    message: Message,
    seen: Option<NativeWindow>,
    edges: Option<Edges>,
    id: WindowId,
)
    requires
        is_life(life),
        message_ready(life.last(), message, seen, edges),
        about_its_window(message, seen),
        reported(on_message_outcome(life.last(), status, message, seen, edges).reaction) == Some(
            Event::WindowCreated(id),
        ),
    ensures
        forall|i: int, k: int|
            0 <= i < life.len() && 0 <= k < life[i].windows@.len() ==> (
            #[trigger] life[i].windows@[k]).id != id,
        ({
            let t = on_message_outcome(life.last(), status, message, seen, edges);
            &&& t.windows == life.last().windows@.push(t.windows.last())
            &&& t.windows.last().id == id
            &&& forall|k: int|
                0 <= k < life.last().windows@.len() ==> (#[trigger] t.windows[k]).hwnd
                    != t.windows.last().hwnd
        }),
{
    let b = life.last();
    let t = on_message_outcome(b, status, message, seen, edges);
    lemma_life(life, 0, life.len() - 1);
    lemma_message(b, status, message, seen, edges);
    assert(t.windows =~= t.windows.drop_last().push(t.windows.last()));
    assert forall|i: int, k: int|
        0 <= i < life.len() && 0 <= k < life[i].windows@.len() implies (
    #[trigger] life[i].windows@[k]).id != id by {
        lemma_life(life, i, i);
        lemma_life(life, i, life.len() - 1);
    }
}

} // verus!
