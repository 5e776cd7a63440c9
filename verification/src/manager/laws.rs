//! What every reaction of the manager keeps.

use crate::action::Action;
use crate::config::TaskbarMode;
use crate::event::Event;
use crate::hotkey::Binding;
use crate::layout::LayoutKind;
use crate::manager::actions::{
    action_outcome, cross_outcome, exchanged, fullscreen_outcome, has_neighbour, index_of_number,
    move_outcome, send_outcome, switch_outcome,
};
use crate::manager::events::{
    created_outcome, destroyed_outcome, dropped, event_outcome, event_ready, focused_outcome,
    lemma_monitor_at, lemma_seeded, monitor_at, monitor_found, move_ready, moved_outcome,
    nearest_window, partners, seeded, window_centre, Facts,
};
use crate::manager::focus::{
    active_windows, beside, first_active, focus_outcome, focus_ring, focus_window, is_active,
    place_in, ring_monitors, settle_outcome,
};
use crate::manager::info::{info_of, WindowInfo};
use crate::manager::state::{
    even_share, initial_state, lemma_visible_place, visible_place, ws_holding, ManagerState,
};
use crate::window::{Rect, WindowId};
use crate::workspace::{lemma_position, position, WorkspaceView};
use crate::workspace_laws::{
    adding_lists_window, lemma_push_contains, lemma_push_no_duplicates, removing_drops_window,
};
use vstd::prelude::*;

verus! {

// ── Where windows are ────────────────────────────────────────────────────────

/// Some workspace holds `id`.
pub open spec fn held(s: ManagerState, id: WindowId) -> bool {
    exists|i: int| 0 <= i < s.workspaces.len() && (#[trigger] s.workspaces[i]).windows.contains(id)
}

/// Every workspace is sound and no window is in two places.
pub open spec fn sound(s: ManagerState) -> bool {
    &&& s.wf()
    &&& forall|i: int| 0 <= i < s.workspaces.len() ==> (#[trigger] s.workspaces[i]).sound()
    &&& forall|i: int, j: int, id: WindowId|
        #![trigger s.workspaces[i].windows.contains(id), s.workspaces[j].windows.contains(id)]
        0 <= i < s.workspaces.len() && 0 <= j < s.workspaces.len()
            && s.workspaces[i].windows.contains(id) && s.workspaces[j].windows.contains(id) ==> i
            == j
}

/// The same windows are managed before and after.
pub open spec fn same_windows(s: ManagerState, t: ManagerState) -> bool {
    forall|id: WindowId| #[trigger] held(t, id) <==> held(s, id)
}

/// A workspace replaced by one with the same windows, in whatever order.
proof fn lemma_replace(s: ManagerState, i: int, w: WorkspaceView)
    requires
        sound(s),
        0 <= i < s.workspaces.len(),
        w.sound(),
        forall|x: WindowId| #[trigger]
            w.windows.contains(x) <==> s.workspaces[i].windows.contains(x),
    ensures
        sound(s.with_ws(i, w)),
        same_windows(s, s.with_ws(i, w)),
{
    let t = s.with_ws(i, w);
    assert(t.wf()) by {
        assert(t.monitor_ws == s.monitor_ws);
    }
    assert forall|x: WindowId| #[trigger] held(t, x) <==> held(s, x) by {
        if held(t, x) {
            let k = choose|k: int|
                0 <= k < t.workspaces.len() && (#[trigger] t.workspaces[k]).windows.contains(x);
            assert(s.workspaces[k].windows.contains(x));
        }
        if held(s, x) {
            let k = choose|k: int|
                0 <= k < s.workspaces.len() && (#[trigger] s.workspaces[k]).windows.contains(x);
            assert(t.workspaces[k].windows.contains(x));
        }
    }
    assert forall|a: int, b: int, id: WindowId|
        #![trigger t.workspaces[a].windows.contains(id), t.workspaces[b].windows.contains(id)]
        0 <= a < t.workspaces.len() && 0 <= b < t.workspaces.len()
            && t.workspaces[a].windows.contains(id) && t.workspaces[b].windows.contains(
            id,
        ) implies a == b by {
        assert(s.workspaces[a].windows.contains(id));
        assert(s.workspaces[b].windows.contains(id));
    }
    assert forall|k: int| 0 <= k < t.workspaces.len() implies (
    #[trigger] t.workspaces[k]).sound() by {
        if k != i {
            assert(t.workspaces[k] == s.workspaces[k]);
        }
    }
}

/// A workspace without one of its windows.
proof fn lemma_remove(s: ManagerState, i: int, id: WindowId)
    requires
        sound(s),
        0 <= i < s.workspaces.len(),
        s.workspaces[i].windows.contains(id),
    ensures
        ({
            let t = s.with_ws(i, s.workspaces[i].removed(id));
            &&& sound(t)
            &&& !held(t, id)
            &&& forall|x: WindowId| #[trigger] held(t, x) <==> held(s, x) && x != id
        }),
{
    let w = s.workspaces[i].removed(id);
    let t = s.with_ws(i, w);
    removing_drops_window(s.workspaces[i], id);
    assert(t.wf()) by {
        assert(t.monitor_ws == s.monitor_ws);
    }
    assert forall|x: WindowId| #[trigger] held(t, x) <==> held(s, x) && x != id by {
        if held(t, x) {
            let k = choose|k: int|
                0 <= k < t.workspaces.len() && (#[trigger] t.workspaces[k]).windows.contains(x);
            assert(s.workspaces[k].windows.contains(x));
            if x == id {
                assert(k == i);
            }
        }
        if held(s, x) && x != id {
            let k = choose|k: int|
                0 <= k < s.workspaces.len() && (#[trigger] s.workspaces[k]).windows.contains(x);
            assert(t.workspaces[k].windows.contains(x));
        }
    }
    assert forall|a: int, b: int, y: WindowId|
        #![trigger t.workspaces[a].windows.contains(y), t.workspaces[b].windows.contains(y)]
        0 <= a < t.workspaces.len() && 0 <= b < t.workspaces.len()
            && t.workspaces[a].windows.contains(y) && t.workspaces[b].windows.contains(
            y,
        ) implies a == b by {
        assert(s.workspaces[a].windows.contains(y));
        assert(s.workspaces[b].windows.contains(y));
    }
    assert forall|k: int| 0 <= k < t.workspaces.len() implies (
    #[trigger] t.workspaces[k]).sound() by {
        if k != i {
            assert(t.workspaces[k] == s.workspaces[k]);
        }
    }
}

/// A workspace with one more window, which no workspace holds yet.
proof fn lemma_insert(s: ManagerState, i: int, id: WindowId, w: WorkspaceView)
    requires
        sound(s),
        0 <= i < s.workspaces.len(),
        !held(s, id),
        w.sound(),
        forall|x: WindowId| #[trigger]
            w.windows.contains(x) <==> s.workspaces[i].windows.contains(x) || x == id,
    ensures
        sound(s.with_ws(i, w)),
        forall|x: WindowId| #[trigger] held(s.with_ws(i, w), x) <==> held(s, x) || x == id,
{
    let t = s.with_ws(i, w);
    assert(t.wf()) by {
        assert(t.monitor_ws == s.monitor_ws);
    }
    assert forall|x: WindowId| #[trigger] held(t, x) <==> held(s, x) || x == id by {
        if held(t, x) && x != id {
            let k = choose|k: int|
                0 <= k < t.workspaces.len() && (#[trigger] t.workspaces[k]).windows.contains(x);
            assert(s.workspaces[k].windows.contains(x));
        }
        if held(s, x) {
            let k = choose|k: int|
                0 <= k < s.workspaces.len() && (#[trigger] s.workspaces[k]).windows.contains(x);
            assert(t.workspaces[k].windows.contains(x));
        }
        if x == id {
            assert(t.workspaces[i].windows.contains(x));
        }
    }
    assert forall|a: int, b: int, y: WindowId|
        #![trigger t.workspaces[a].windows.contains(y), t.workspaces[b].windows.contains(y)]
        0 <= a < t.workspaces.len() && 0 <= b < t.workspaces.len()
            && t.workspaces[a].windows.contains(y) && t.workspaces[b].windows.contains(
            y,
        ) implies a == b by {
        if y == id {
            if a != i {
                assert(s.workspaces[a].windows.contains(y));
            }
            if b != i {
                assert(s.workspaces[b].windows.contains(y));
            }
        } else {
            assert(s.workspaces[a].windows.contains(y));
            assert(s.workspaces[b].windows.contains(y));
        }
    }
    assert forall|k: int| 0 <= k < t.workspaces.len() implies (
    #[trigger] t.workspaces[k]).sound() by {
        if k != i {
            assert(t.workspaces[k] == s.workspaces[k]);
        }
    }
}

/// A change of monitors and settings alone.
proof fn lemma_same_workspaces(s: ManagerState, t: ManagerState)
    requires
        sound(s),
        t.wf(),
        t.workspaces == s.workspaces,
    ensures
        sound(t),
        same_windows(s, t),
{
    assert forall|x: WindowId| #[trigger] held(t, x) <==> held(s, x) by {}
}

/// Giving a window the focus of its workspace.
proof fn lemma_focusing(s: ManagerState, id: WindowId, ws: int)
    requires
        sound(s),
        0 <= ws < s.workspaces.len(),
        s.workspaces[ws].windows.contains(id),
    ensures
        sound(s.focusing(id, ws)),
        same_windows(s, s.focusing(id, ws)),
{
    let t = s.focusing(id, ws);
    assert(t.wf()) by {
        assert(t.monitor_ws == s.monitor_ws);
    }
    assert forall|k: int| 0 <= k < t.workspaces.len() implies (
    #[trigger] t.workspaces[k]).windows == s.workspaces[k].windows by {}
    assert forall|x: WindowId| #[trigger] held(t, x) <==> held(s, x) by {
        if held(t, x) {
            let k = choose|k: int|
                0 <= k < t.workspaces.len() && (#[trigger] t.workspaces[k]).windows.contains(x);
            assert(s.workspaces[k].windows.contains(x));
        }
        if held(s, x) {
            let k = choose|k: int|
                0 <= k < s.workspaces.len() && (#[trigger] s.workspaces[k]).windows.contains(x);
            assert(t.workspaces[k].windows.contains(x));
        }
    }
    assert forall|a: int, b: int, y: WindowId|
        #![trigger t.workspaces[a].windows.contains(y), t.workspaces[b].windows.contains(y)]
        0 <= a < t.workspaces.len() && 0 <= b < t.workspaces.len()
            && t.workspaces[a].windows.contains(y) && t.workspaces[b].windows.contains(
            y,
        ) implies a == b by {
        assert(s.workspaces[a].windows.contains(y));
        assert(s.workspaces[b].windows.contains(y));
    }
    assert forall|k: int| 0 <= k < t.workspaces.len() implies (
    #[trigger] t.workspaces[k]).sound() by {
        let u = s.workspaces[k];
        assert(u.sound());
        assert forall|x: WindowId| #[trigger] t.workspaces[k].is_full(x) implies t.workspaces[
            k
        ].windows.contains(x) by {
            assert(u.is_full(x));
        }
    }
}

/// Exchanging two windows keeps all windows, each once.
pub proof fn exchanging_keeps_windows(ids: Seq<WindowId>, a: WindowId, b: WindowId)
    requires
        ids.no_duplicates(),
    ensures
        exchanged(ids, a, b).no_duplicates(),
        exchanged(ids, a, b).len() == ids.len(),
        forall|x: WindowId| #[trigger] exchanged(ids, a, b).contains(x) <==> ids.contains(x),
{
    lemma_position(ids, a);
    lemma_position(ids, b);
    let t = exchanged(ids, a, b);
    if position(ids, a) is Some && position(ids, b) is Some {
        let i = position(ids, a)->0;
        let j = position(ids, b)->0;
        assert forall|x: WindowId| #[trigger] t.contains(x) <==> ids.contains(x) by {
            if ids.contains(x) {
                let k = choose|k: int| 0 <= k < ids.len() && ids[k] == x;
                if k == i {
                    assert(t[j] == x);
                } else if k == j {
                    assert(t[i] == x);
                } else {
                    assert(t[k] == x);
                }
            }
            if t.contains(x) {
                let k = choose|k: int| 0 <= k < t.len() && t[k] == x;
                if k == j {
                    assert(ids[i] == x);
                } else if k == i {
                    assert(ids[j] == x);
                } else {
                    assert(ids[k] == x);
                }
            }
        }
    }
}

/// Exchanging the same two windows again restores the order.
pub proof fn exchanging_undoes_itself(ids: Seq<WindowId>, a: WindowId, b: WindowId)
    requires
        ids.no_duplicates(),
    ensures
        exchanged(exchanged(ids, a, b), a, b) == ids,
{
    lemma_position(ids, a);
    lemma_position(ids, b);
    let t = exchanged(ids, a, b);
    exchanging_keeps_windows(ids, a, b);
    lemma_position(t, a);
    lemma_position(t, b);
    if position(ids, a) is Some && position(ids, b) is Some {
        let i = position(ids, a)->0;
        let j = position(ids, b)->0;
        assert(t[i] == b && t[j] == a);
        assert(t.contains(a) && t.contains(b));
        assert(position(t, a)->0 == j);
        assert(position(t, b)->0 == i);
        assert(exchanged(t, a, b) =~= ids);
    } else {
        assert(t == ids);
    }
}

// ── Actions ──────────────────────────────────────────────────────────────────

/// A window that is active is one of those given.
pub proof fn lemma_active(ids: Seq<WindowId>, infos: Seq<WindowInfo>, i: int)
    requires
        0 <= i < active_windows(ids, infos).len(),
    ensures
        ids.contains(active_windows(ids, infos)[i]),
{
    let shown = active_windows(ids, infos);
    assert(shown.contains(shown[i]));
    ids.lemma_filter_contains_rev(is_active(infos), shown[i]);
}

/// Each window of the ring is on the workspace that its monitor shows.
pub proof fn lemma_ring(s: ManagerState, infos: Seq<WindowInfo>, n: int)
    requires
        s.wf(),
        n <= s.monitor_ws.len(),
    ensures
        focus_ring(s, infos, n).len() == ring_monitors(s, infos, n).len(),
        forall|i: int|
            0 <= i < focus_ring(s, infos, n).len() ==> (#[trigger] ring_monitors(s, infos, n)[i])
                < n && s.workspaces[s.monitor_ws[ring_monitors(
                s,
                infos,
                n,
            )[i] as int] as int].windows.contains(focus_ring(s, infos, n)[i]),
    decreases n,
{
    if n > 0 {
        lemma_ring(s, infos, n - 1);
        assert(s.monitor_ws.len() <= s.monitor_ws.len() * s.ws_per_mon) by (nonlinear_arith)
            requires
                s.ws_per_mon >= 1,
        ;
        let ring = focus_ring(s, infos, n);
        let mons = ring_monitors(s, infos, n);
        let before = focus_ring(s, infos, n - 1);
        let ids = s.workspaces[s.monitor_ws[n - 1] as int].windows;
        assert forall|i: int| 0 <= i < ring.len() implies (#[trigger] mons[i]) < n
            && s.workspaces[s.monitor_ws[mons[i] as int] as int].windows.contains(ring[i]) by {
            if i < before.len() {
                assert(mons[i] == ring_monitors(s, infos, n - 1)[i]);
                assert(ring[i] == before[i]);
            } else {
                assert(mons[i] == n - 1);
                lemma_active(ids, infos, i - before.len());
            }
        }
    }
}

/// Places on a ring lie on it.
pub proof fn lemma_place(ring: Seq<WindowId>, focused: Option<WindowId>, forward: bool)
    requires
        ring.len() > 0,
    ensures
        0 <= place_in(ring, focused) < ring.len(),
        0 <= beside(place_in(ring, focused), ring.len() as int, forward) < ring.len(),
{
    if focused is Some {
        lemma_position(ring, focused->0);
    }
}

proof fn lemma_focus_window(s: ManagerState, id: WindowId, ws: usize)
    requires
        sound(s),
        ws < s.workspaces.len(),
        s.workspaces[ws as int].windows.contains(id),
    ensures
        sound(focus_window(s, id, ws).state),
        same_windows(s, focus_window(s, id, ws).state),
{
    lemma_focusing(s, id, ws as int);
}

proof fn lemma_focus_outcome(s: ManagerState, infos: Seq<WindowInfo>, forward: bool)
    requires
        sound(s),
    ensures
        sound(focus_outcome(s, infos, forward).state),
        same_windows(s, focus_outcome(s, infos, forward).state),
{
    let n = s.monitor_ws.len() as int;
    let ring = focus_ring(s, infos, n);
    if ring.len() > 0 {
        lemma_ring(s, infos, n);
        lemma_place(ring, s.focused_window(), forward);
        let at = beside(place_in(ring, s.focused_window()), ring.len() as int, forward);
        let mon = ring_monitors(s, infos, n)[at];
        let t = ManagerState { focused_mon: mon, ..s };
        assert(t.wf()) by {
            assert(t.monitor_ws == s.monitor_ws);
        }
        lemma_same_workspaces(s, t);
        assert(s.monitor_ws[mon as int] < s.workspaces.len());
        lemma_focus_window(t, ring[at], s.monitor_ws[mon as int]);
    }
}

proof fn lemma_front(ids: Seq<WindowId>, id: WindowId)
    requires
        ids.no_duplicates(),
        !ids.contains(id),
    ensures
        (seq![id] + ids).no_duplicates(),
        forall|x: WindowId| #[trigger] (seq![id] + ids).contains(x) <==> ids.contains(x) || x == id,
{
    let all = seq![id] + ids;
    assert forall|x: WindowId| #[trigger] all.contains(x) <==> ids.contains(x) || x == id by {
        assert(all[0] == id);
        if ids.contains(x) {
            let k = choose|k: int| 0 <= k < ids.len() && ids[k] == x;
            assert(all[k + 1] == x);
        }
        if all.contains(x) && x != id {
            let k = choose|k: int| 0 <= k < all.len() && all[k] == x;
            assert(ids[k - 1] == x);
        }
    }
    assert forall|i: int, j: int| 0 <= i < all.len() && 0 <= j < all.len() && i != j implies all[i]
        != all[j] by {
        if i > 0 && j > 0 {
            assert(ids[i - 1] != ids[j - 1]);
        } else if i > 0 {
            assert(ids.contains(ids[i - 1]));
        } else {
            assert(ids.contains(ids[j - 1]));
        }
    }
}

/// The focused monitor shows a workspace.
pub proof fn lemma_current(s: ManagerState)
    requires
        s.wf(),
    ensures
        0 <= s.current() < s.workspaces.len(),
{
    assert(s.monitor_ws[s.focused_mon as int] < s.workspaces.len());
}

proof fn lemma_cross(
    s: ManagerState,
    id: WindowId,
    neighbour: usize,
    forward: bool,
    animate: bool,
)
    requires
        sound(s),
        neighbour < s.monitor_ws.len(),
        s.current_ws().windows.contains(id),
    ensures
        sound(cross_outcome(s, id, neighbour, forward, animate).state),
        same_windows(s, cross_outcome(s, id, neighbour, forward, animate).state),
{
    lemma_current(s);
    let from = s.current() as int;
    let to = s.monitor_ws[neighbour as int];
    assert(s.monitor_ws[neighbour as int] < s.workspaces.len());
    let left = s.with_ws(from, s.current_ws().removed(id));
    lemma_remove(s, from, id);
    let w = left.workspaces[to as int];
    assert(!w.windows.contains(id));
    assert(w.sound());
    let entered = WorkspaceView {
        windows: if forward {
            seq![id] + w.windows
        } else {
            w.windows.push(id)
        },
        ..w
    };
    if forward {
        lemma_front(w.windows, id);
    } else {
        lemma_push_no_duplicates(w.windows, id);
        assert forall|x: WindowId| #[trigger] entered.windows.contains(x) <==> w.windows.contains(x)
            || x == id by {
            lemma_push_contains(w.windows, id, x);
        }
    }
    assert forall|x: WindowId| #[trigger] entered.is_full(x) implies entered.windows.contains(
        x,
    ) by {
        assert(w.is_full(x));
    }
    lemma_insert(left, to as int, id, entered);
    let t = left.with_ws(to as int, entered);
    let u = ManagerState { focused_mon: neighbour, ..t };
    assert(u.wf()) by {
        assert(u.monitor_ws == t.monitor_ws);
    }
    lemma_same_workspaces(t, u);
    lemma_focus_window(u, id, to);
    assert forall|x: WindowId| #[trigger] held(
        cross_outcome(s, id, neighbour, forward, animate).state,
        x,
    ) <==> held(s, x) by {
        if x == id {
            assert(s.workspaces[from].windows.contains(x));
        }
        assert(held(t, x) <==> held(left, x) || x == id);
        assert(held(u, x) <==> held(t, x));
    }
}

proof fn lemma_exchange(s: ManagerState, ws: int, windows: Seq<WindowId>, w: WorkspaceView)
    requires
        sound(s),
        0 <= ws < s.workspaces.len(),
        w == (WorkspaceView { windows, ..s.workspaces[ws] }),
        windows.no_duplicates(),
        forall|x: WindowId| #[trigger]
            windows.contains(x) <==> s.workspaces[ws].windows.contains(x),
    ensures
        sound(s.with_ws(ws, w)),
        same_windows(s, s.with_ws(ws, w)),
{
    let v = s.workspaces[ws];
    assert(v.sound());
    assert forall|x: WindowId| #[trigger] w.is_full(x) implies w.windows.contains(x) by {
        assert(v.is_full(x));
    }
    lemma_replace(s, ws, w);
}

proof fn lemma_move_outcome(
    s: ManagerState,
    infos: Seq<WindowInfo>,
    forward: bool,
    animate: bool,
)
    requires
        sound(s),
    ensures
        sound(move_outcome(s, infos, forward, animate).state),
        same_windows(s, move_outcome(s, infos, forward, animate).state),
{
    lemma_current(s);
    let w = s.current_ws();
    assert(w.sound());
    if s.focused_window() is Some {
        let id = s.focused_window()->0;
        let shown = active_windows(w.windows, infos);
        lemma_position(shown, id);
        if position(shown, id) is Some {
            let pos = position(shown, id)->0;
            let at_edge = if forward {
                pos + 1 >= shown.len()
            } else {
                pos == 0
            };
            if at_edge && has_neighbour(s.focused_mon as int, s.monitor_ws.len() as int, forward) {
                let neighbour = if forward {
                    (s.focused_mon + 1) as usize
                } else {
                    (s.focused_mon - 1) as usize
                };
                lemma_cross(s, id, neighbour, forward, animate);
            } else {
                let other = shown[beside(pos, shown.len() as int, forward)];
                exchanging_keeps_windows(w.windows, id, other);
                let windows = exchanged(w.windows, id, other);
                lemma_exchange(
                    s,
                    s.current() as int,
                    windows,
                    WorkspaceView { windows, ..w },
                );
            }
        }
    }
}

proof fn lemma_fullscreen_outcome(s: ManagerState, infos: Seq<WindowInfo>, animate: bool)
    requires
        sound(s),
    ensures
        sound(fullscreen_outcome(s, infos, animate).state),
        same_windows(s, fullscreen_outcome(s, infos, animate).state),
{
    lemma_current(s);
    let ws = s.current() as int;
    let v = s.current_ws();
    assert(v.sound());
    if s.focused_window() is Some {
        let w = fullscreen_outcome(s, infos, animate).state.workspaces[ws];
        assert forall|x: WindowId| #[trigger] w.is_full(x) implies w.windows.contains(x) by {
            assert(v.is_full(x) || x == s.focused_window()->0);
        }
        lemma_replace(s, ws, w);
    }
}

proof fn lemma_switch_outcome(s: ManagerState, n: u8, animate: bool)
    requires
        sound(s),
    ensures
        sound(switch_outcome(s, n, animate).state),
        same_windows(s, switch_outcome(s, n, animate).state),
{
    let t = switch_outcome(s, n, animate).state;
    let to = index_of_number(n);
    lemma_owner(s, to);
    if to < s.workspaces.len() && s.monitor_ws[s.owner(to)] != to {
        assert forall|m: int| 0 <= m < t.monitor_ws.len() implies (#[trigger] t.monitor_ws[m])
            < t.workspaces.len() by {
            if m != s.owner(to) {
                assert(t.monitor_ws[m] == s.monitor_ws[m]);
            }
        }
        assert(t.wf());
    }
    lemma_same_workspaces(s, t);
}

/// The owner of a workspace is a monitor.
pub proof fn lemma_owner(s: ManagerState, ws: int)
    requires
        s.wf(),
        0 <= ws,
    ensures
        0 <= s.owner(ws) < s.monitor_ws.len(),
{
    assert(0 <= ws / s.ws_per_mon as int) by (nonlinear_arith)
        requires
            0 <= ws,
            s.ws_per_mon >= 1,
    ;
}

proof fn lemma_send_outcome(s: ManagerState, n: u8)
    requires
        sound(s),
    ensures
        sound(send_outcome(s, n).state),
        same_windows(s, send_outcome(s, n).state),
{
    lemma_current(s);
    let to = index_of_number(n);
    let from = s.current() as int;
    let t = send_outcome(s, n).state;
    if s.focused_window() is Some && to < s.workspaces.len() && to != from {
        let id = s.focused_window()->0;
        assert(s.current_ws().sound());
        lemma_transfer(s, from, to, id);
    }
}

/// A window moved from one workspace to another.
proof fn lemma_transfer(s: ManagerState, from: int, to: int, id: WindowId)
    requires
        sound(s),
        0 <= from < s.workspaces.len(),
        0 <= to < s.workspaces.len(),
        s.workspaces[from].windows.contains(id),
    ensures
        ({
            let left = s.with_ws(from, s.workspaces[from].removed(id));
            let t = left.with_ws(to, left.workspaces[to].added(id));
            &&& sound(t)
            &&& same_windows(s, t)
        }),
{
    let left = s.with_ws(from, s.workspaces[from].removed(id));
    lemma_remove(s, from, id);
    let w = left.workspaces[to];
    assert(w.sound());
    adding_lists_window(w, id);
    let t = left.with_ws(to, w.added(id));
    lemma_insert(left, to, id, w.added(id));
    assert forall|x: WindowId| #[trigger] held(t, x) <==> held(s, x) by {
        if x == id {
            assert(s.workspaces[from].windows.contains(x));
        }
        assert(held(t, x) <==> held(left, x) || x == id);
    }
}

/// No action loses a window, makes one up or puts one in two places: the same
/// windows are managed afterwards, each on one workspace, and every focused or
/// fullscreen window is on the workspace that it belongs to.
pub proof fn actions_keep_windows(
    s: ManagerState,
    action: Action,
    infos: Seq<WindowInfo>,
    animate: bool,
)
    requires
        sound(s),
    ensures
        sound(action_outcome(s, action, infos, animate).state),
        same_windows(s, action_outcome(s, action, infos, animate).state),
{
    match action {
        Action::FocusNext => lemma_focus_outcome(s, infos, true),
        Action::FocusPrev => lemma_focus_outcome(s, infos, false),
        Action::MoveNext => lemma_move_outcome(s, infos, true, animate),
        Action::MovePrev => lemma_move_outcome(s, infos, false, animate),
        Action::ToggleFullscreen => lemma_fullscreen_outcome(s, infos, animate),
        Action::SetLayout(kind) => {
            lemma_current(s);
            let v = s.current_ws();
            let w = WorkspaceView { layout: kind, ..v };
            assert(v.sound());
            lemma_exchange_layout(s, s.current() as int, kind);
        },
        Action::SwitchWorkspace(n) => lemma_switch_outcome(s, n, animate),
        Action::MoveFocusedToWorkspace(n) => lemma_send_outcome(s, n),
        _ => lemma_same_workspaces(s, s),
    }
}

proof fn lemma_exchange_layout(s: ManagerState, ws: int, kind: LayoutKind)
    requires
        sound(s),
        0 <= ws < s.workspaces.len(),
    ensures
        sound(s.with_ws(ws, WorkspaceView { layout: kind, ..s.workspaces[ws] })),
        same_windows(s, s.with_ws(ws, WorkspaceView { layout: kind, ..s.workspaces[ws] })),
{
    let v = s.workspaces[ws];
    let w = WorkspaceView { layout: kind, ..v };
    assert(v.sound());
    assert forall|x: WindowId| #[trigger] w.is_full(x) implies w.windows.contains(x) by {
        assert(v.is_full(x));
    }
    lemma_replace(s, ws, w);
}

/// Settling the focus after a switch keeps all windows in their places.
pub proof fn settling_keeps_windows(s: ManagerState, infos: Seq<WindowInfo>, ws: usize)
    requires
        sound(s),
        ws < s.workspaces.len(),
    ensures
        sound(settle_outcome(s, infos, ws).state),
        same_windows(s, settle_outcome(s, infos, ws).state),
{
    let v = s.workspaces[ws as int];
    assert(v.sound());
    let shown = active_windows(v.windows, infos);
    if shown.len() > 0 {
        lemma_active(v.windows, infos, 0);
    }
    let focused = if v.focused is None {
        first_active(v.windows, infos)
    } else {
        v.focused
    };
    let w = WorkspaceView { focused, ..v };
    assert forall|x: WindowId| #[trigger] w.is_full(x) implies w.windows.contains(x) by {
        assert(v.is_full(x));
    }
    lemma_replace(s, ws as int, w);
    let t = s.with_ws(ws as int, w);
    if focused is Some {
        lemma_focus_window(t, focused->0, ws);
        assert forall|x: WindowId| #[trigger] held(
            settle_outcome(s, infos, ws).state,
            x,
        ) <==> held(s, x) by {
            assert(held(t, x) <==> held(s, x));
        }
    }
}

// ── Events ───────────────────────────────────────────────────────────────────

/// A workspace found to hold a window holds it.
pub proof fn lemma_holding(ws: Seq<WorkspaceView>, id: WindowId, n: int)
    requires
        n <= ws.len(),
    ensures
        match ws_holding(ws, id, n) {
            Some(i) => 0 <= i < n && ws[i].windows.contains(id),
            None => forall|i: int| 0 <= i < n ==> !(#[trigger] ws[i]).windows.contains(id),
        },
    decreases n,
{
    if n > 0 {
        lemma_holding(ws, id, n - 1);
    }
}

/// A new window is managed afterwards, and no other window comes or goes.
pub proof fn creating_adds_window(s: ManagerState, id: WindowId, x: i32)
    requires
        sound(s),
        monitor_found(s, x),
        !held(s, id),
    ensures
        sound(created_outcome(s, id, x).state),
        forall|y: WindowId| #[trigger]
            held(created_outcome(s, id, x).state, y) <==> held(s, y) || y == id,
{
    lemma_monitor_at(s, x);
    let mon = monitor_at(s, x);
    assert(s.monitor_ws[mon] < s.workspaces.len());
    let ws = s.monitor_ws[mon] as int;
    assert(s.workspaces[ws].sound());
    adding_lists_window(s.workspaces[ws], id);
    lemma_insert(s, ws, id, s.workspaces[ws].added(id));
}

/// A destroyed window is nowhere afterwards, not even as the focused or a
/// fullscreen window, and no other window comes or goes.
pub proof fn destroying_removes_window(s: ManagerState, id: WindowId)
    requires
        sound(s),
    ensures
        ({
            let t = destroyed_outcome(s, id).state;
            &&& sound(t)
            &&& forall|y: WindowId| #[trigger] held(t, y) <==> held(s, y) && y != id
            &&& forall|i: int|
                0 <= i < t.workspaces.len() ==> (#[trigger] t.workspaces[i]).focused != Some(id)
                    && !t.workspaces[i].is_full(id)
        }),
{
    let t = destroyed_outcome(s, id).state;
    assert forall|i: int| 0 <= i < t.workspaces.len() implies (#[trigger] t.workspaces[i]).sound()
        && t.workspaces[i].focused != Some(id) && !t.workspaces[i].is_full(id) by {
        assert(s.workspaces[i].sound());
        removing_drops_window(s.workspaces[i], id);
    }
    assert forall|i: int, y: WindowId| 0 <= i < t.workspaces.len() implies (
    #[trigger] t.workspaces[i].windows.contains(y) <==> s.workspaces[i].windows.contains(y) && y
        != id) by {
        assert(s.workspaces[i].sound());
        removing_drops_window(s.workspaces[i], id);
    }
    assert(t.wf()) by {
        assert(t.monitor_ws == s.monitor_ws);
    }
    assert forall|y: WindowId| #[trigger] held(t, y) <==> held(s, y) && y != id by {
        if held(t, y) {
            let k = choose|k: int|
                0 <= k < t.workspaces.len() && (#[trigger] t.workspaces[k]).windows.contains(y);
            assert(s.workspaces[k].windows.contains(y));
        }
        if held(s, y) && y != id {
            let k = choose|k: int|
                0 <= k < s.workspaces.len() && (#[trigger] s.workspaces[k]).windows.contains(y);
            assert(t.workspaces[k].windows.contains(y));
        }
    }
    assert forall|a: int, b: int, y: WindowId|
        #![trigger t.workspaces[a].windows.contains(y), t.workspaces[b].windows.contains(y)]
        0 <= a < t.workspaces.len() && 0 <= b < t.workspaces.len()
            && t.workspaces[a].windows.contains(y) && t.workspaces[b].windows.contains(
            y,
        ) implies a == b by {
        assert(s.workspaces[a].windows.contains(y));
        assert(s.workspaces[b].windows.contains(y));
    }
}

proof fn lemma_focused_outcome(s: ManagerState, id: WindowId, animate: bool)
    requires
        sound(s),
    ensures
        sound(focused_outcome(s, id, animate).state),
        same_windows(s, focused_outcome(s, id, animate).state),
{
    lemma_visible_place(s, id);
    assert(s.monitor_ws.len() <= s.monitor_ws.len() * s.ws_per_mon) by (nonlinear_arith)
        requires
            s.ws_per_mon >= 1,
    ;
    match visible_place(s, id) {
        Some((ws, mon)) => {
            assert(s.monitor_ws[mon] < s.workspaces.len());
            let t = ManagerState { focused_mon: mon as usize, ..s };
            assert(t.wf()) by {
                assert(t.monitor_ws == s.monitor_ws);
            }
            lemma_same_workspaces(s, t);
            lemma_focusing(t, id, ws as int);
        },
        None => {
            lemma_holding(s.workspaces, id, s.workspaces.len() as int);
            match ws_holding(s.workspaces, id, s.workspaces.len() as int) {
                Some(to) => {
                    lemma_owner(s, to);
                    let mon = s.owner(to);
                    let t = ManagerState {
                        monitor_ws: s.monitor_ws.update(mon, to as usize),
                        focused_mon: mon as usize,
                        ..s
                    };
                    assert forall|m: int| 0 <= m < t.monitor_ws.len() implies (
                    #[trigger] t.monitor_ws[m]) < t.workspaces.len() by {
                        if m != mon {
                            assert(t.monitor_ws[m] == s.monitor_ws[m]);
                        }
                    }
                    assert(t.wf());
                    lemma_same_workspaces(s, t);
                    lemma_focus_window(t, id, to as usize);
                },
                None => lemma_same_workspaces(s, s),
            }
        },
    }
}

proof fn lemma_moved_outcome(s: ManagerState, id: WindowId, infos: Seq<WindowInfo>)
    requires
        sound(s),
        move_ready(s, id, infos),
    ensures
        sound(moved_outcome(s, id, infos).state),
        same_windows(s, moved_outcome(s, id, infos).state),
{
    lemma_visible_place(s, id);
    match (visible_place(s, id), info_of(infos, id)) {
        (Some((ws, mon)), Some(w)) if !w.floating => {
            assert(s.monitor_ws[mon] < s.workspaces.len());
            let to_mon = monitor_at(s, w.geometry.x);
            lemma_monitor_at(s, w.geometry.x);
            if to_mon != mon {
                assert(s.monitor_ws[to_mon] < s.workspaces.len());
                lemma_transfer(s, ws as int, s.monitor_ws[to_mon] as int, id);
            } else {
                let v = s.workspaces[ws as int];
                let others = partners(v.windows, id, infos);
                assert(v.sound());
                if others.len() > 0 {
                    let best = nearest_window(
                        infos,
                        others,
                        window_centre(infos, id),
                        others.len() as int,
                    );
                    exchanging_keeps_windows(v.windows, id, others[best]);
                }
                let windows = dropped(v.windows, id, infos);
                lemma_exchange(s, ws as int, windows, WorkspaceView { windows, ..v });
            }
        },
        _ => lemma_same_workspaces(s, s),
    }
}

/// Only a creation brings a window in and only a destruction takes one out; at
/// every other event the same windows are managed before and after.  No window
/// is ever in two places.
pub proof fn events_keep_windows(
    s: ManagerState,
    bindings: Seq<Binding>,
    event: Event,
    facts: Facts,
    infos: Seq<WindowInfo>,
)
    requires
        sound(s),
        event_ready(s, event, facts, infos),
        event matches Event::WindowCreated(id) ==> !held(s, id),
    ensures
        ({
            let t = event_outcome(s, bindings, event, facts, infos).state;
            &&& sound(t)
            &&& match event {
                Event::WindowCreated(id) => forall|y: WindowId| #[trigger]
                    held(t, y) <==> held(s, y) || y == id,
                Event::WindowDestroyed(id) => forall|y: WindowId| #[trigger]
                    held(t, y) <==> held(s, y) && y != id,
                _ => same_windows(s, t),
            }
        }),
{
    let animate = s.animations && facts.system_animations;
    match event {
        Event::WindowCreated(id) => creating_adds_window(s, id, facts.window_area.x),
        Event::WindowDestroyed(id) => destroying_removes_window(s, id),
        Event::WindowFocused(id) => lemma_focused_outcome(s, id, animate),
        Event::WindowMoved { id } => lemma_moved_outcome(s, id, infos),
        Event::WorkAreaChanged => {
            let t = ManagerState { monitor_rects: facts.monitor_rects@, ..s };
            assert(t.wf()) by {
                assert(t.monitor_ws == s.monitor_ws);
            }
            lemma_same_workspaces(s, t);
        },
        Event::Keybinding(key) => {
            if key.0 < bindings.len() {
                actions_keep_windows(s, bindings[key.0 as int].action, infos, animate);
            } else {
                lemma_same_workspaces(s, s);
            }
        },
        _ => lemma_same_workspaces(s, s),
    }
}

/// At startup no window is managed and everything is in order.
pub proof fn startup_is_sound(
    names: Seq<Seq<char>>,
    layout: LayoutKind,
    rects: Seq<Rect>,
    animations: bool,
    taskbar: TaskbarMode,
)
    requires
        names.len() >= 1,
        names.len() + rects.len() < usize::MAX,
    ensures
        sound(initial_state(names, layout, rects, animations, taskbar)),
        forall|id: WindowId| !held(initial_state(names, layout, rects, animations, taskbar), id),
{
    let s = initial_state(names, layout, rects, animations, taskbar);
    let monitors: int = if rects.len() == 0 {
        1
    } else {
        rects.len() as int
    };
    let n = names.len() as int;
    let share = even_share(n, monitors);
    assert(1 <= share && monitors * share <= n + monitors - 1) by (nonlinear_arith)
        requires
            n >= 1,
            monitors >= 1,
            share == (n + monitors - 1) / monitors,
    ;
    assert(share <= monitors * share) by (nonlinear_arith)
        requires
            monitors >= 1,
            share >= 1,
    ;
    assert forall|m: int| 0 <= m < s.monitor_ws.len() implies (#[trigger] s.monitor_ws[m])
        < s.workspaces.len() by {
        assert(0 <= m * share) by (nonlinear_arith)
            requires
                0 <= m,
                1 <= share,
        ;
    }
}

/// The windows taken in at startup are the ones managed afterwards.
pub proof fn seeding_takes_in_windows(s: ManagerState, infos: Seq<WindowInfo>, n: int)
    requires
        sound(s),
        0 <= n <= infos.len(),
        forall|i: int|
            0 <= i < infos.len() ==> monitor_found(s, (#[trigger] infos[i]).work_rect.x),
        forall|i: int, j: int|
            0 <= i < j < infos.len() ==> (#[trigger] infos[i]).id != (#[trigger] infos[j]).id,
        forall|i: int| 0 <= i < infos.len() ==> !held(s, (#[trigger] infos[i]).id),
    ensures
        sound(seeded(s, infos, n)),
        forall|y: WindowId| #[trigger]
            held(seeded(s, infos, n), y) <==> held(s, y) || exists|i: int|
                0 <= i < n && (#[trigger] infos[i]).id == y,
    decreases n,
{
    if n > 0 {
        seeding_takes_in_windows(s, infos, n - 1);
        lemma_seeded(s, infos, n - 1);
        let before = seeded(s, infos, n - 1);
        let id = infos[n - 1].id;
        let x = infos[n - 1].work_rect.x;
        assert(monitor_found(s, x));
        assert(!held(before, id)) by {
            assert(!held(s, infos[n - 1].id));
        }
        lemma_monitor_at(s, x);
        assert(s.monitor_ws[monitor_at(s, x)] < s.workspaces.len());
        let ws = s.monitor_ws[monitor_at(s, x)] as int;
        assert(before.workspaces[ws].sound());
        adding_lists_window(before.workspaces[ws], id);
        lemma_insert(before, ws, id, before.workspaces[ws].added(id));
        assert forall|y: WindowId| #[trigger] held(seeded(s, infos, n), y) <==> held(s, y)
            || exists|i: int| 0 <= i < n && (#[trigger] infos[i]).id == y by {
            assert(held(seeded(s, infos, n), y) <==> held(before, y) || y == id);
            if y == id {
                assert(infos[n - 1].id == y);
            }
        }
    } else {
        lemma_same_workspaces(s, s);
    }
}

} // verus!
