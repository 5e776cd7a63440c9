//! What actions do together: which undo each other, and what each leaves alone.

use crate::layout::LayoutKind;
use crate::manager::actions::{
    cross_outcome, exchange_outcome, exchanged, fullscreen_outcome, has_neighbour, index_of_number,
    layout_step, leave_command, move_outcome, quit_steps, send_outcome, switch_outcome, tileless,
};
use crate::manager::focus::{
    active_windows, beside, focus_outcome, focus_ring, is_active, place_in, ring_monitors,
};
use crate::manager::info::{info_of, minimized, WindowInfo};
use crate::manager::laws::{
    exchanging_keeps_windows, exchanging_undoes_itself, lemma_active, lemma_current, lemma_owner,
    lemma_place, lemma_ring, sound,
};
use crate::manager::state::ManagerState;
use crate::manager::step::{Command, Step};
use crate::window::WindowId;
use crate::workspace::{lemma_position, position, without};
use crate::workspace_laws::{
    adding_lists_window, leaving_fullscreen_undoes_entering, lemma_push_no_duplicates,
    removing_drops_window, without_drops_only_it,
};
use vstd::prelude::*;

verus! {

// ── Focus ────────────────────────────────────────────────────────────────────

/// Only one window over all monitors has the focus, and only its workspace is
/// painted with a focused window.
pub proof fn only_one_window_has_focus(s: ManagerState, id: WindowId, ws: int)
    requires
        s.wf(),
        s.visible(ws),
    ensures
        ({
            let t = s.focusing(id, ws);
            &&& t.workspaces[ws].focused == Some(id)
            &&& forall|i: int|
                0 <= i < t.workspaces.len() && t.visible(i) && (
                #[trigger] t.workspaces[i]).focused is Some ==> i == ws
            &&& forall|m: int|
                0 <= m < t.monitor_ws.len() ==> #[trigger] t.focus_steps(id, ws)[m]
                    == (Step::Borders {
                    ws: t.monitor_ws[m],
                    focused: if t.monitor_ws[m] == ws {
                        Some(id)
                    } else {
                        None
                    },
                })
        }),
{
    let t = s.focusing(id, ws);
    let k = choose|k: int| 0 <= k < s.monitor_ws.len() && #[trigger] s.monitor_ws[k] == ws;
    assert(s.monitor_ws[k] < s.workspaces.len());
    assert forall|i: int| t.visible(i) implies s.visible(i) by {
        let m = choose|m: int| 0 <= m < t.monitor_ws.len() && #[trigger] t.monitor_ws[m] == i;
        assert(s.monitor_ws[m] == i);
    }
    assert forall|i: int|
        0 <= i < t.workspaces.len() && t.visible(i) && (
        #[trigger] t.workspaces[i]).focused is Some implies i == ws by {
        assert(s.visible(i));
    }
    assert forall|m: int| 0 <= m < t.monitor_ws.len() implies #[trigger] t.focus_steps(id, ws)[m]
        == (Step::Borders {
        ws: t.monitor_ws[m],
        focused: if t.monitor_ws[m] == ws {
            Some(id)
        } else {
            None
        },
    }) by {
        assert(s.monitor_ws[m] < s.workspaces.len());
        assert(s.visible(s.monitor_ws[m] as int));
        assert(t.focus_steps(id, ws)[m] == t.borders(t.monitor_ws[m]));
    }
}

/// No two monitors show the same workspace.
pub open spec fn monitors_apart(s: ManagerState) -> bool {
    forall|a: int, b: int|
        0 <= a < s.monitor_ws.len() && 0 <= b < s.monitor_ws.len() && #[trigger] s.monitor_ws[a]
            == #[trigger] s.monitor_ws[b] ==> a == b
}

proof fn lemma_same_ring(s: ManagerState, t: ManagerState, infos: Seq<WindowInfo>, n: int)
    requires
        s.wf(),
        n <= s.monitor_ws.len(),
        t.monitor_ws == s.monitor_ws,
        t.workspaces.len() == s.workspaces.len(),
        forall|i: int|
            0 <= i < s.workspaces.len() ==> (#[trigger] t.workspaces[i]).windows
                == s.workspaces[i].windows,
    ensures
        focus_ring(t, infos, n) == focus_ring(s, infos, n),
        ring_monitors(t, infos, n) == ring_monitors(s, infos, n),
    decreases n,
{
    if n > 0 {
        lemma_same_ring(s, t, infos, n - 1);
        assert(s.monitor_ws[n - 1] < s.workspaces.len());
        assert(t.workspaces[s.monitor_ws[n - 1] as int].windows == s.workspaces[s.monitor_ws[n
            - 1] as int].windows);
    }
}

/// What is left of distinct windows is distinct.
pub proof fn lemma_filter_no_duplicates(ids: Seq<WindowId>, p: spec_fn(WindowId) -> bool)
    requires
        ids.no_duplicates(),
    ensures
        ids.filter(p).no_duplicates(),
    decreases ids.len(),
{
    reveal(Seq::filter);
    if ids.len() > 0 {
        let rest = ids.drop_last();
        lemma_filter_no_duplicates(rest, p);
        if p(ids.last()) {
            if rest.filter(p).contains(ids.last()) {
                rest.lemma_filter_contains_rev(p, ids.last());
                let k = choose|k: int| 0 <= k < rest.len() && rest[k] == ids.last();
                assert(ids[k] == ids[ids.len() - 1]);
            }
            lemma_push_no_duplicates(rest.filter(p), ids.last());
        }
    }
}

/// On monitors that show different workspaces, no window is on the ring twice.
pub proof fn lemma_ring_no_duplicates(s: ManagerState, infos: Seq<WindowInfo>, n: int)
    requires
        sound(s),
        monitors_apart(s),
        n <= s.monitor_ws.len(),
    ensures
        focus_ring(s, infos, n).no_duplicates(),
    decreases n,
{
    if n > 0 {
        lemma_ring_no_duplicates(s, infos, n - 1);
        lemma_ring(s, infos, n - 1);
        let before = focus_ring(s, infos, n - 1);
        let ws = s.monitor_ws[n - 1] as int;
        assert(s.monitor_ws[n - 1] < s.workspaces.len());
        let ids = s.workspaces[ws].windows;
        let here = active_windows(ids, infos);
        assert(s.workspaces[ws].sound());
        lemma_filter_no_duplicates(ids, is_active(infos));
        let all = before + here;
        assert forall|i: int, j: int|
            0 <= i < all.len() && 0 <= j < all.len() && i != j implies all[i] != all[j] by {
            if i < before.len() && j >= before.len() {
                lemma_across(s, infos, n, i, j - before.len());
            } else if j < before.len() && i >= before.len() {
                lemma_across(s, infos, n, j, i - before.len());
            }
        }
    }
}

proof fn lemma_across(s: ManagerState, infos: Seq<WindowInfo>, n: int, i: int, j: int)
    requires
        sound(s),
        monitors_apart(s),
        0 < n <= s.monitor_ws.len(),
        0 <= i < focus_ring(s, infos, n - 1).len(),
        0 <= j < active_windows(s.workspaces[s.monitor_ws[n - 1] as int].windows, infos).len(),
    ensures
        focus_ring(s, infos, n - 1)[i] != active_windows(
            s.workspaces[s.monitor_ws[n - 1] as int].windows,
            infos,
        )[j],
{
    lemma_ring(s, infos, n - 1);
    let mon = ring_monitors(s, infos, n - 1)[i] as int;
    let a = s.monitor_ws[mon] as int;
    let b = s.monitor_ws[n - 1] as int;
    assert(s.monitor_ws[mon] < s.workspaces.len());
    assert(s.monitor_ws[n - 1] < s.workspaces.len());
    lemma_active(s.workspaces[b].windows, infos, j);
    let x = focus_ring(s, infos, n - 1)[i];
    assert(s.workspaces[a].windows.contains(x));
    if x == active_windows(s.workspaces[b].windows, infos)[j] {
        assert(s.workspaces[b].windows.contains(x));
        assert(a == b);
    }
}

/// Focusing the next window and then the previous one, or the other way round,
/// gives the focus back to the window that had it, on the same monitor.
pub proof fn focusing_back_restores_focus(
    s: ManagerState,
    infos: Seq<WindowInfo>,
    forward: bool,
)
    requires
        sound(s),
        monitors_apart(s),
        s.focused_window() matches Some(id) && !minimized(infos, id),
    ensures
        ({
            let t = focus_outcome(s, infos, forward).state;
            let u = focus_outcome(t, infos, !forward).state;
            &&& u.monitor_ws == s.monitor_ws
            &&& u.focused_mon == s.focused_mon
            &&& u.focused_window() == s.focused_window()
        }),
{
    let n = s.monitor_ws.len() as int;
    let ring = focus_ring(s, infos, n);
    let mons = ring_monitors(s, infos, n);
    let id = s.focused_window()->0;
    lemma_current(s);
    assert(s.current_ws().sound());
    lemma_ring_has(s, infos, n, s.focused_mon as int, id);
    lemma_ring(s, infos, n);
    lemma_ring_no_duplicates(s, infos, n);
    lemma_place(ring, s.focused_window(), forward);
    lemma_position(ring, id);
    let pos = place_in(ring, s.focused_window());
    let at = beside(pos, ring.len() as int, forward);
    let mon = mons[at];
    let ws = s.monitor_ws[mon as int];
    assert(s.monitor_ws[mon as int] < s.workspaces.len());
    let t = focus_outcome(s, infos, forward).state;
    assert(s.visible(ws as int));
    assert(ManagerState { focused_mon: mon, ..s }.visible(ws as int)) by {
        assert(ManagerState { focused_mon: mon, ..s }.monitor_ws[mon as int] == ws);
    }
    assert(t.monitor_ws == s.monitor_ws);
    assert(t.focused_window() == Some(ring[at]));
    lemma_same_ring(s, t, infos, n);
    lemma_position(ring, ring[at]);
    assert(position(ring, ring[at]) == Some(at)) by {
        assert(ring[position(ring, ring[at])->0] == ring[at]);
    }
    assert(beside(at, ring.len() as int, !forward) == pos);
    assert(ring[pos] == id);
    let back = mons[pos];
    let home = s.monitor_ws[back as int];
    assert(s.workspaces[home as int].windows.contains(id));
    assert(s.monitor_ws[back as int] < s.workspaces.len());
    assert(s.workspaces[s.current() as int].windows.contains(id));
    assert(home == s.current());
    assert(s.monitor_ws[back as int] == s.monitor_ws[s.focused_mon as int]);
    assert(back == s.focused_mon);
    let t1 = ManagerState { focused_mon: back, ..t };
    assert(t1.visible(home as int)) by {
        assert(t1.monitor_ws[back as int] == home);
    }
}

/// An active window of a shown workspace is on the ring.
proof fn lemma_ring_has(s: ManagerState, infos: Seq<WindowInfo>, n: int, m: int, id: WindowId)
    requires
        s.wf(),
        0 <= m < n <= s.monitor_ws.len(),
        s.workspaces[s.monitor_ws[m] as int].windows.contains(id),
        !minimized(infos, id),
    ensures
        focus_ring(s, infos, n).contains(id),
    decreases n,
{
    let before = focus_ring(s, infos, n - 1);
    let ids = s.workspaces[s.monitor_ws[n - 1] as int].windows;
    let here = active_windows(ids, infos);
    let all = before + here;
    if m == n - 1 {
        let k = choose|k: int| 0 <= k < ids.len() && ids[k] == id;
        ids.lemma_filter_contains(is_active(infos), k);
        let j = choose|j: int| 0 <= j < here.len() && here[j] == id;
        assert(all[before.len() + j] == id);
    } else {
        lemma_ring_has(s, infos, n - 1, m, id);
        let j = choose|j: int| 0 <= j < before.len() && before[j] == id;
        assert(all[j] == id);
    }
}

// ── Order ────────────────────────────────────────────────────────────────────

/// `a` for `b` and `b` for `a`.
spec fn swap_of(a: WindowId, b: WindowId) -> spec_fn(WindowId) -> WindowId {
    |x: WindowId|
        if x == a {
            b
        } else if x == b {
            a
        } else {
            x
        }
}

proof fn lemma_exchange_is_map(ids: Seq<WindowId>, a: WindowId, b: WindowId)
    requires
        ids.no_duplicates(),
        ids.contains(a),
        ids.contains(b),
    ensures
        exchanged(ids, a, b) == ids.map_values(swap_of(a, b)),
{
    lemma_position(ids, a);
    lemma_position(ids, b);
    let t = exchanged(ids, a, b);
    let u = ids.map_values(swap_of(a, b));
    let i = position(ids, a)->0;
    let j = position(ids, b)->0;
    assert forall|k: int| 0 <= k < ids.len() implies t[k] == u[k] by {
        if ids[k] == a {
            assert(k == i);
        } else if ids[k] == b {
            assert(k == j);
        }
    }
    assert(t =~= u);
}

proof fn lemma_filter_map(
    ids: Seq<WindowId>,
    p: spec_fn(WindowId) -> bool,
    g: spec_fn(WindowId) -> WindowId,
)
    requires
        forall|x: WindowId| p(#[trigger] g(x)) == p(x),
    ensures
        ids.map_values(g).filter(p) == ids.filter(p).map_values(g),
    decreases ids.len(),
{
    reveal(Seq::filter);
    let m = ids.map_values(g);
    if ids.len() > 0 {
        lemma_filter_map(ids.drop_last(), p, g);
        assert(m.drop_last() =~= ids.drop_last().map_values(g));
        assert(m.last() == g(ids.last()));
        if p(ids.last()) {
            assert(ids.filter(p).map_values(g) =~= ids.drop_last().filter(p).map_values(g).push(
                g(ids.last()),
            ));
        }
    } else {
        assert(m =~= ids);
        assert(ids.filter(p).map_values(g) =~= m.filter(p));
    }
}

/// Moving a window one place and back restores the order, unless it stood at
/// the edge that it was moved toward.
pub proof fn moving_back_restores_order(
    s: ManagerState,
    infos: Seq<WindowInfo>,
    forward: bool,
    animate: bool,
)
    requires
        sound(s),
        s.focused_window() matches Some(id) && {
            let shown = active_windows(s.current_ws().windows, infos);
            position(shown, id) matches Some(pos) && if forward {
                pos + 1 < shown.len()
            } else {
                pos > 0
            }
        },
    ensures
        ({
            let t = move_outcome(s, infos, forward, animate).state;
            move_outcome(t, infos, !forward, animate).state == s
        }),
{
    lemma_current(s);
    let v = s.current_ws();
    assert(v.sound());
    let id = s.focused_window()->0;
    let shown = active_windows(v.windows, infos);
    lemma_position(shown, id);
    let pos = position(shown, id)->0;
    let at = beside(pos, shown.len() as int, forward);
    let other = shown[at];
    lemma_active(v.windows, infos, pos);
    lemma_active(v.windows, infos, at);
    v.windows.lemma_filter_pred(is_active(infos), pos);
    v.windows.lemma_filter_pred(is_active(infos), at);
    let t = move_outcome(s, infos, forward, animate).state;
    assert(t == exchange_outcome(s, id, other, animate).state);
    let g = swap_of(id, other);
    let p = is_active(infos);
    lemma_exchange_is_map(v.windows, id, other);
    assert forall|x: WindowId| p(#[trigger] g(x)) == p(x) by {}
    lemma_filter_map(v.windows, p, g);
    let shown2 = active_windows(t.current_ws().windows, infos);
    assert(shown2 == shown.map_values(g));
    lemma_filter_no_duplicates(v.windows, p);
    exchanging_keeps_windows(v.windows, id, other);
    lemma_filter_no_duplicates(t.current_ws().windows, p);
    assert(shown2[at] == id);
    assert(shown2[pos] == other);
    lemma_position(shown2, id);
    assert(position(shown2, id) == Some(at)) by {
        assert(shown2.contains(id));
        assert(shown2[position(shown2, id)->0] == shown2[at]);
    }
    assert(beside(at, shown2.len() as int, !forward) == pos);
    exchanging_undoes_itself(v.windows, id, other);
    let u = move_outcome(t, infos, !forward, animate).state;
    assert(u == exchange_outcome(t, id, other, animate).state);
    assert(u.workspaces =~= s.workspaces);
}

/// The lists of windows around a crossing, and what is left where it began.
proof fn lemma_crossing(ids: Seq<WindowId>, id: WindowId, infos: Seq<WindowInfo>)
    requires
        ids.no_duplicates(),
        !ids.contains(id),
        !minimized(infos, id),
    ensures
        without(seq![id] + ids, id) == ids,
        without(ids.push(id), id) == ids,
        position(active_windows(seq![id] + ids, infos), id) == Some(0int),
        position(active_windows(ids.push(id), infos), id) == Some(
            active_windows(ids.push(id), infos).len() - 1,
        ),
{
    without_drops_only_it(ids, id);
    let p = is_active(infos);
    let one = seq![id];
    assert(one.filter(p) =~= one) by {
        reveal(Seq::filter);
        assert(one.drop_last() =~= Seq::<WindowId>::empty());
        assert(one.drop_last().filter(p) =~= Seq::<WindowId>::empty());
    }
    Seq::filter_distributes_over_add(one, ids, p);
    let front = active_windows(one + ids, infos);
    assert(front[0] == id);
    lemma_position(front, id);
    assert(front.contains(id));
    let back = active_windows(ids.push(id), infos);
    assert(back =~= ids.filter(p).push(id)) by {
        reveal(Seq::filter);
        assert(ids.push(id).drop_last() =~= ids);
    }
    lemma_position(back, id);
    assert(back.contains(id));
    if ids.filter(p).contains(id) {
        ids.lemma_filter_contains_rev(p, id);
    }
    assert forall|k: int| 0 <= k < back.len() - 1 implies back[k] != id by {
        assert(ids.filter(p)[k] == back[k]);
        assert(ids.filter(p).contains(back[k]));
    }
    assert(ids.push(id).drop_last() =~= ids);
    lemma_without_front(ids, id);
}

proof fn lemma_without_front(ids: Seq<WindowId>, id: WindowId)
    requires
        !ids.contains(id),
    ensures
        without(seq![id] + ids, id) == ids,
    decreases ids.len(),
{
    let all = seq![id] + ids;
    if ids.len() == 0 {
        assert(all.drop_last() =~= Seq::<WindowId>::empty());
        assert(without(all.drop_last(), id) =~= Seq::<WindowId>::empty());
        assert(all.last() == id);
        assert(without(all, id) =~= ids);
    } else {
        let rest = ids.drop_last();
        assert forall|k: int| 0 <= k < rest.len() implies rest[k] != id by {
            assert(ids[k] == rest[k]);
            assert(ids.contains(ids[k]));
        }
        lemma_without_front(rest, id);
        assert(all.drop_last() =~= seq![id] + rest);
        assert(all.last() == ids.last());
        assert(ids.contains(ids.last())) by {
            assert(ids[ids.len() - 1] == ids.last());
        }
        assert(without(all, id) =~= ids);
    }
}

/// A window moved over the edge to the neighbouring monitor and back is where
/// it was, at the edge of its workspace, and keeps the focus.
pub proof fn crossing_back_restores_windows(
    s: ManagerState,
    infos: Seq<WindowInfo>,
    forward: bool,
    animate: bool,
)
    requires
        sound(s),
        monitors_apart(s),
        has_neighbour(s.focused_mon as int, s.monitor_ws.len() as int, forward),
        s.focused_window() matches Some(id) && !minimized(infos, id) && id == (if forward {
            s.current_ws().windows.last()
        } else {
            s.current_ws().windows[0]
        }),
    ensures
        ({
            let t = move_outcome(s, infos, forward, animate).state;
            let u = move_outcome(t, infos, !forward, animate).state;
            &&& u.focused_mon == s.focused_mon
            &&& u.focused_window() == s.focused_window()
            &&& forall|i: int|
                0 <= i < s.workspaces.len() ==> (#[trigger] u.workspaces[i]).windows
                    == s.workspaces[i].windows
        }),
{
    lemma_current(s);
    let id = s.focused_window()->0;
    let from = s.current() as int;
    let v = s.current_ws();
    assert(v.sound());
    let kept = without(v.windows, id);
    without_drops_only_it(v.windows, id);
    assert(v.windows =~= (if forward {
        kept.push(id)
    } else {
        seq![id] + kept
    })) by {
        if forward {
            let rest = v.windows.drop_last();
            assert(v.windows =~= rest.push(id));
            assert(!rest.contains(id)) by {
                if rest.contains(id) {
                    let k = choose|k: int| 0 <= k < rest.len() && rest[k] == id;
                    assert(v.windows[k] == v.windows[v.windows.len() - 1]);
                }
            }
            without_drops_only_it(rest, id);
        } else {
            let rest = v.windows.skip(1);
            assert(v.windows =~= seq![id] + rest);
            assert(!rest.contains(id)) by {
                if rest.contains(id) {
                    let k = choose|k: int| 0 <= k < rest.len() && rest[k] == id;
                    assert(v.windows[k + 1] == v.windows[0]);
                }
            }
            lemma_without_front(rest, id);
        }
    }
    lemma_crossing(kept, id, infos);
    assert(s.monitor_ws.len() <= s.monitor_ws.len() * s.ws_per_mon) by (nonlinear_arith)
        requires
            s.ws_per_mon >= 1,
    ;
    let neighbour = if forward {
        (s.focused_mon + 1) as usize
    } else {
        (s.focused_mon - 1) as usize
    };
    let to = s.monitor_ws[neighbour as int] as int;
    assert(s.monitor_ws[neighbour as int] < s.workspaces.len());
    assert(to != from);
    let w = s.workspaces[to];
    assert(w.sound());
    assert(!w.windows.contains(id)) by {
        assert(s.workspaces[from].windows.contains(id));
    }
    lemma_crossing(w.windows, id, infos);
    let t = move_outcome(s, infos, forward, animate).state;
    assert(t == cross_outcome(s, id, neighbour, forward, animate).state);
    assert(t.monitor_ws == s.monitor_ws);
    assert(t.workspaces[to].windows == (if forward {
        seq![id] + w.windows
    } else {
        w.windows.push(id)
    }));
    assert(t.workspaces[from].windows == kept);
    let entered = ManagerState { focused_mon: neighbour, ..t };
    assert(entered.monitor_ws[neighbour as int] == to);
    assert(t.focused_window() == Some(id));
    let u = move_outcome(t, infos, !forward, animate).state;
    assert(u == cross_outcome(t, id, s.focused_mon, !forward, animate).state);
    assert(u.workspaces[to].windows == w.windows);
    assert(u.workspaces[from].windows == v.windows);
    assert forall|i: int| 0 <= i < s.workspaces.len() implies (#[trigger] u.workspaces[i]).windows
        == s.workspaces[i].windows by {
        if i != from && i != to {
            assert(t.workspaces[i].windows == s.workspaces[i].windows);
        }
    }
}

/// Giving a window the focus of a monocle workspace brings it to the top; in
/// other layouts the stacking stays as it is.
pub proof fn monocle_focus_raises(s: ManagerState, id: WindowId, ws: int)
    requires
        s.wf(),
        0 <= ws < s.workspaces.len(),
    ensures
        s.focusing(id, ws).focus_steps(id, ws).contains(Step::Do(Command::Raise { id }))
            <==> s.workspaces[ws].layout == LayoutKind::Monocle,
{
    let t = s.focusing(id, ws);
    let steps = t.focus_steps(id, ws);
    let n = t.monitor_ws.len() as int;
    assert(t.workspaces[ws].layout == s.workspaces[ws].layout);
    if t.workspaces[ws].layout == LayoutKind::Monocle {
        assert(steps[n] == Step::Do(Command::Raise { id }));
    } else {
        assert forall|i: int| 0 <= i < steps.len() implies steps[i] != Step::Do(
            Command::Raise { id },
        ) by {
            assert(steps[i] == t.borders(t.monitor_ws[i]));
        }
    }
}

// ── Fullscreen ───────────────────────────────────────────────────────────────

/// Toggling fullscreen twice leaves the state as it was, where the window was
/// not fullscreen to begin with.
pub proof fn fullscreen_twice_changes_nothing(
    s: ManagerState,
    infos: Seq<WindowInfo>,
    later: Seq<WindowInfo>,
    animate: bool,
)
    requires
        s.wf(),
        s.focused_window() matches Some(id) && !s.current_ws().is_full(id),
    ensures
        ({
            let t = fullscreen_outcome(s, infos, animate).state;
            &&& t.current_ws().is_full(s.focused_window()->0)
            &&& fullscreen_outcome(t, later, animate).state == s
        }),
{
    lemma_current(s);
    let id = s.focused_window()->0;
    let t = fullscreen_outcome(s, infos, animate).state;
    let saved = t.current_ws().fullscreen[id.0];
    leaving_fullscreen_undoes_entering(s.current_ws(), id, saved);
    let u = fullscreen_outcome(t, later, animate).state;
    assert(u.workspaces =~= s.workspaces);
}

/// Toggling fullscreen twice brings a window back to where it was: one that the
/// layout does not place is put there, any other gets its tile from the layout.
pub proof fn fullscreen_twice_restores_the_window(
    s: ManagerState,
    infos: Seq<WindowInfo>,
    later: Seq<WindowInfo>,
    animate: bool,
)
    requires
        s.wf(),
        s.focused_window() matches Some(id) && !s.current_ws().is_full(id) && info_of(
            infos,
            id,
        ) is Some && info_of(later, id) is Some,
    ensures
        ({
            let id = s.focused_window()->0;
            let before = info_of(infos, id)->0.geometry;
            let now = info_of(later, id)->0;
            let t = fullscreen_outcome(s, infos, animate).state;
            let steps = fullscreen_outcome(t, later, animate).steps;
            let put_back = Step::Do(Command::SetGeometry { id, rect: before });
            &&& now.floating || tileless(s.current_ws().layout) <==> steps.contains(put_back)
            &&& steps.contains(layout_step(s.current(), s.current_area(), animate))
        }),
{
    lemma_current(s);
    let id = s.focused_window()->0;
    let before = info_of(infos, id)->0.geometry;
    let now = info_of(later, id)->0;
    let t = fullscreen_outcome(s, infos, animate).state;
    let steps = fullscreen_outcome(t, later, animate).steps;
    lemma_info_id(later, id);
    assert(t.current_ws().fullscreen[id.0] == before);
    if now.floating || tileless(s.current_ws().layout) {
        assert(steps[1] == Step::Do(Command::SetGeometry { id, rect: before }));
        assert(steps[2] == layout_step(s.current(), s.current_area(), animate));
    } else {
        assert(steps.len() == 4);
        assert(steps[0] == Step::Do(Command::SetTopmost { id, topmost: false }));
        assert(steps[1] == layout_step(s.current(), s.current_area(), animate));
        assert(steps[2] is Borders && steps[3] is Broadcast);
    }
}

/// What is known of a window is known under its identifier.
proof fn lemma_info_id(infos: Seq<WindowInfo>, id: WindowId)
    ensures
        info_of(infos, id) matches Some(w) ==> w.id == id,
    decreases infos.len(),
{
    if infos.len() > 0 && infos[0].id != id {
        lemma_info_id(infos.skip(1), id);
    }
}

// ── Workspaces ───────────────────────────────────────────────────────────────

/// Switching shows the workspace on the monitor that owns it and leaves the
/// other monitors and all workspaces alone.
pub proof fn switching_shows_workspace(s: ManagerState, n: u8, animate: bool)
    requires
        s.wf(),
        index_of_number(n) < s.workspaces.len(),
    ensures
        ({
            let to = index_of_number(n);
            let t = switch_outcome(s, n, animate).state;
            &&& t.monitor_ws[s.owner(to)] == to
            &&& t.visible(to)
            &&& t.workspaces == s.workspaces
            &&& forall|m: int|
                0 <= m < s.monitor_ws.len() && m != s.owner(to) ==> #[trigger] t.monitor_ws[m]
                    == s.monitor_ws[m]
        }),
{
    let to = index_of_number(n);
    lemma_owner(s, to);
    let t = switch_outcome(s, n, animate).state;
    assert(t.monitor_ws[s.owner(to)] == to);
}

/// A switch shows every window of the new workspace, and parks or hides every
/// window of the old one.
pub proof fn switching_shows_and_hides_windows(s: ManagerState, n: u8, animate: bool)
    requires
        s.wf(),
        index_of_number(n) < s.workspaces.len(),
        s.monitor_ws[s.owner(index_of_number(n))] != index_of_number(n),
    ensures
        ({
            let to = index_of_number(n);
            let from = s.monitor_ws[s.owner(to)] as int;
            let steps = switch_outcome(s, n, animate).steps;
            &&& forall|id: WindowId| #[trigger]
                s.workspaces[to].windows.contains(id) ==> steps.contains(
                    Step::Do(Command::Show { id }),
                )
            &&& forall|id: WindowId| #[trigger]
                s.workspaces[from].windows.contains(id) ==> steps.contains(
                    Step::Do(leave_command(s.taskbar, id)),
                )
        }),
{
    let to = index_of_number(n);
    lemma_owner(s, to);
    let mon = s.owner(to);
    let from = s.monitor_ws[mon];
    let steps = switch_outcome(s, n, animate).steps;
    let t = switch_outcome(s, n, animate).state;
    let incoming = s.workspaces[to].windows;
    let outgoing = s.workspaces[from as int].windows;
    let a = if animate {
        incoming.len() as int
    } else {
        0
    };
    assert forall|id: WindowId| #[trigger] incoming.contains(id) implies steps.contains(
        Step::Do(Command::Show { id }),
    ) by {
        let k = choose|k: int| 0 <= k < incoming.len() && incoming[k] == id;
        assert(steps[a + k] == Step::Do(Command::Show { id }));
    }
    let b = a + incoming.len() + 2 + (if animate {
        1int
    } else {
        0int
    });
    assert forall|id: WindowId| #[trigger] outgoing.contains(id) implies steps.contains(
        Step::Do(leave_command(s.taskbar, id)),
    ) by {
        let k = choose|k: int| 0 <= k < outgoing.len() && outgoing[k] == id;
        assert(steps[b + k] == Step::Do(leave_command(s.taskbar, id)));
    }
}

/// Switching to another workspace of the same monitor and back shows the same
/// workspaces as before.
pub proof fn switching_back_restores_monitors(s: ManagerState, n: u8, back: u8, animate: bool)
    requires
        s.wf(),
        index_of_number(n) < s.workspaces.len(),
        s.owner(index_of_number(back)) == s.owner(index_of_number(n)),
        s.monitor_ws[s.owner(index_of_number(n))] == index_of_number(back),
    ensures
        ({
            let t = switch_outcome(s, n, animate).state;
            switch_outcome(t, back, animate).state.monitor_ws == s.monitor_ws
        }),
{
    let to = index_of_number(n);
    lemma_owner(s, to);
    let t = switch_outcome(s, n, animate).state;
    assert(t.owner(index_of_number(back)) == s.owner(to));
    assert(s.monitor_ws[s.owner(to)] < s.workspaces.len());
    let u = switch_outcome(t, back, animate).state;
    assert(u.monitor_ws =~= s.monitor_ws);
}

/// The focused window sent to another workspace is there and no longer here;
/// no monitor shows another workspace for it.
pub proof fn sending_moves_window(s: ManagerState, n: u8)
    requires
        sound(s),
        s.focused_window() is Some,
        index_of_number(n) < s.workspaces.len(),
        index_of_number(n) != s.current(),
    ensures
        ({
            let id = s.focused_window()->0;
            let t = send_outcome(s, n).state;
            &&& t.workspaces[index_of_number(n)].windows.contains(id)
            &&& !t.workspaces[s.current() as int].windows.contains(id)
            &&& t.monitor_ws == s.monitor_ws
            &&& t.focused_mon == s.focused_mon
        }),
{
    lemma_current(s);
    let id = s.focused_window()->0;
    let to = index_of_number(n);
    let from = s.current() as int;
    assert(s.workspaces[from].sound());
    assert(s.workspaces[to].sound());
    removing_drops_window(s.workspaces[from], id);
    let left = s.with_ws(from, s.workspaces[from].removed(id));
    assert(left.workspaces[to] == s.workspaces[to]);
    adding_lists_window(s.workspaces[to], id);
}

/// On quitting every known window is shown, and leaving comes last.
pub proof fn quitting_shows_every_window(infos: Seq<WindowInfo>)
    ensures
        forall|i: int|
            0 <= i < infos.len() ==> quit_steps(infos).contains(
                Step::Do(Command::Show { id: (#[trigger] infos[i]).id }),
            ),
        quit_steps(infos).last() == Step::Exit,
{
    assert forall|i: int| 0 <= i < infos.len() implies quit_steps(infos).contains(
        Step::Do(Command::Show { id: (#[trigger] infos[i]).id }),
    ) by {
        assert(quit_steps(infos)[i] == Step::Do(Command::Show { id: infos[i].id }));
    }
}

} // verus!
