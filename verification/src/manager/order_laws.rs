//! Which window is next: what moving and focusing do, told by places in the
//! window order.  Minimised windows are passed over.

use crate::manager::action_laws::{
    lemma_filter_no_duplicates, lemma_ring_no_duplicates, monitors_apart,
};
use crate::manager::actions::{
    cross_outcome, exchange_outcome, exchanged, layout_step, move_outcome,
};
use crate::manager::focus::{
    active_windows, beside, focus_outcome, focus_ring, is_active, place_in, ring_monitors,
};
use crate::manager::info::{info_of, WindowInfo};
use crate::manager::laws::{lemma_current, lemma_ring, sound};
use crate::manager::state::ManagerState;
use crate::manager::step::{Command, Step};
use crate::window::WindowId;
use crate::workspace::{lemma_position, position, without, WorkspaceView};
use vstd::prelude::*;

verus! {

/// `id` is not known to be minimised.
pub open spec fn awake(infos: Seq<WindowInfo>, id: WindowId) -> bool {
    match info_of(infos, id) {
        Some(w) => !w.minimized,
        None => true,
    }
}

/// Every window from place `a` up to place `b` is minimised.
pub open spec fn none_awake(ids: Seq<WindowId>, infos: Seq<WindowInfo>, a: int, b: int) -> bool {
    forall|k: int| a <= k < b ==> !awake(infos, #[trigger] ids[k])
}

// ── Places among the active windows ──────────────────────────────────────────

/// How many of the first `k` windows are active.
spec fn rank(ids: Seq<WindowId>, infos: Seq<WindowInfo>, k: int) -> int {
    active_windows(ids.take(k), infos).len() as int
}

/// One more window adds to the active ones if it is active.
proof fn lemma_rank_step(ids: Seq<WindowId>, infos: Seq<WindowInfo>, k: int)
    requires
        0 <= k < ids.len(),
    ensures
        active_windows(ids.take(k + 1), infos) == (if awake(infos, ids[k]) {
            active_windows(ids.take(k), infos).push(ids[k])
        } else {
            active_windows(ids.take(k), infos)
        }),
        rank(ids, infos, k + 1) == rank(ids, infos, k) + (if awake(infos, ids[k]) {
            1int
        } else {
            0
        }),
{
    reveal(Seq::filter);
    let more = ids.take(k + 1);
    assert(more.drop_last() =~= ids.take(k));
    assert(more.last() == ids[k]);
}

/// The active windows among the first few are the first of the active windows.
proof fn lemma_rank_prefix(ids: Seq<WindowId>, infos: Seq<WindowInfo>, a: int, b: int)
    requires
        0 <= a <= b <= ids.len(),
    ensures
        rank(ids, infos, a) <= rank(ids, infos, b),
        forall|q: int|
            0 <= q < rank(ids, infos, a) ==> active_windows(ids.take(a), infos)[q]
                == #[trigger] active_windows(ids.take(b), infos)[q],
    decreases b - a,
{
    if a < b {
        lemma_rank_prefix(ids, infos, a, b - 1);
        lemma_rank_step(ids, infos, b - 1);
    }
}

/// Place `rank` of the active windows is the window at place `k`.
proof fn lemma_ranked(ids: Seq<WindowId>, infos: Seq<WindowInfo>, k: int)
    requires
        0 <= k < ids.len(),
        awake(infos, ids[k]),
    ensures
        0 <= rank(ids, infos, k) < active_windows(ids, infos).len(),
        active_windows(ids, infos)[rank(ids, infos, k)] == ids[k],
{
    let n = ids.len() as int;
    lemma_rank_step(ids, infos, k);
    lemma_rank_prefix(ids, infos, k + 1, n);
    assert(ids.take(n) =~= ids);
    let q = rank(ids, infos, k);
    assert(active_windows(ids.take(k + 1), infos)[q] == active_windows(ids.take(n), infos)[q]);
}

/// Ranks do not change over minimised windows.
proof fn lemma_rank_flat(ids: Seq<WindowId>, infos: Seq<WindowInfo>, a: int, b: int)
    requires
        0 <= a <= b <= ids.len(),
        none_awake(ids, infos, a, b),
    ensures
        rank(ids, infos, a) == rank(ids, infos, b),
    decreases b - a,
{
    if a < b {
        lemma_rank_flat(ids, infos, a, b - 1);
        assert(!awake(infos, ids[b - 1]));
        lemma_rank_step(ids, infos, b - 1);
    }
}

/// Every place among the active windows is the rank of an active window.
proof fn lemma_unranked(ids: Seq<WindowId>, infos: Seq<WindowInfo>, q: int, n: int) -> (k: int)
    requires
        0 <= n <= ids.len(),
        0 <= q < rank(ids, infos, n),
    ensures
        0 <= k < n,
        awake(infos, ids[k]),
        rank(ids, infos, k) == q,
    decreases n,
{
    if n == 0 {
        assert(ids.take(0) =~= Seq::<WindowId>::empty());
        assert(active_windows(ids.take(0), infos).len() == 0) by {
            reveal(Seq::filter);
        }
        0
    } else {
        lemma_rank_step(ids, infos, n - 1);
        if q < rank(ids, infos, n - 1) {
            lemma_unranked(ids, infos, q, n - 1)
        } else {
            n - 1
        }
    }
}

proof fn lemma_rank_zero(ids: Seq<WindowId>, infos: Seq<WindowInfo>)
    ensures
        rank(ids, infos, 0) == 0,
        rank(ids, infos, ids.len() as int) == active_windows(ids, infos).len(),
{
    assert(ids.take(0) =~= Seq::<WindowId>::empty());
    assert(active_windows(ids.take(0), infos).len() == 0) by {
        reveal(Seq::filter);
    }
    assert(ids.take(ids.len() as int) =~= ids);
}

/// The place of an active window among the active windows.
proof fn lemma_active_position(ids: Seq<WindowId>, infos: Seq<WindowInfo>, k: int)
    requires
        ids.no_duplicates(),
        0 <= k < ids.len(),
        awake(infos, ids[k]),
    ensures
        position(active_windows(ids, infos), ids[k]) == Some(rank(ids, infos, k)),
        position(ids, ids[k]) == Some(k),
{
    let shown = active_windows(ids, infos);
    lemma_ranked(ids, infos, k);
    lemma_filter_no_duplicates(ids, is_active(infos));
    lemma_position(shown, ids[k]);
    assert(shown.contains(ids[k]));
    lemma_position(ids, ids[k]);
    assert(ids.contains(ids[k]));
}

/// The first window that is not minimised is the first active one.
pub proof fn lemma_first_awake(ids: Seq<WindowId>, infos: Seq<WindowInfo>, k: int)
    requires
        0 <= k < ids.len(),
        awake(infos, ids[k]),
        none_awake(ids, infos, 0, k),
    ensures
        active_windows(ids, infos).len() > 0,
        active_windows(ids, infos)[0] == ids[k],
{
    lemma_rank_zero(ids, infos);
    lemma_rank_flat(ids, infos, 0, k);
    lemma_ranked(ids, infos, k);
}

/// Where all windows are minimised none is active.
pub proof fn lemma_none_awake(ids: Seq<WindowId>, infos: Seq<WindowInfo>)
    requires
        none_awake(ids, infos, 0, ids.len() as int),
    ensures
        active_windows(ids, infos).len() == 0,
{
    lemma_rank_zero(ids, infos);
    lemma_rank_flat(ids, infos, 0, ids.len() as int);
}

// ── Moving ───────────────────────────────────────────────────────────────────

/// The state in which the windows at places `i` and `j` of the current workspace
/// have changed places, and nothing else is different.
pub open spec fn places_exchanged(s: ManagerState, i: int, j: int) -> ManagerState {
    let ids = s.current_ws().windows;
    ManagerState {
        workspaces: s.workspaces.update(
            s.current() as int,
            WorkspaceView { windows: ids.update(i, ids[j]).update(j, ids[i]), ..s.current_ws() },
        ),
        ..s
    }
}

proof fn lemma_exchange_places(
    s: ManagerState,
    infos: Seq<WindowInfo>,
    forward: bool,
    animate: bool,
    i: int,
    j: int,
)
    requires
        sound(s),
        0 <= i < s.current_ws().windows.len(),
        0 <= j < s.current_ws().windows.len(),
        awake(infos, s.current_ws().windows[i]),
        awake(infos, s.current_ws().windows[j]),
        s.focused_window() == Some(s.current_ws().windows[i]),
        ({
            let ids = s.current_ws().windows;
            let len = active_windows(ids, infos).len() as int;
            let p = rank(ids, infos, i);
            &&& rank(ids, infos, j) == beside(p, len, forward)
            &&& if forward {
                p + 1 < len || s.focused_mon + 1 == s.monitor_ws.len()
            } else {
                p > 0 || s.focused_mon == 0
            }
        }),
    ensures
        move_outcome(s, infos, forward, animate).state == places_exchanged(s, i, j),
        move_outcome(s, infos, forward, animate).steps == seq![
            layout_step(s.current(), s.current_area(), animate),
            places_exchanged(s, i, j).borders(s.current()),
        ],
{
    lemma_current(s);
    assert(s.current_ws().sound());
    let ids = s.current_ws().windows;
    lemma_active_position(ids, infos, i);
    lemma_active_position(ids, infos, j);
    lemma_ranked(ids, infos, j);
    let o = exchange_outcome(s, ids[i], ids[j], animate);
    assert(move_outcome(s, infos, forward, animate) == o);
    assert(exchanged(ids, ids[i], ids[j]) == ids.update(i, ids[j]).update(j, ids[i]));
    assert(o.state.workspaces =~= places_exchanged(s, i, j).workspaces);
}

/// Moving a window forward makes it change places with the next window that is
/// not minimised, and moving it backward with the one before; whatever stands
/// between them, and everything else, stays where it is.  The workspace is then
/// laid out again.
pub proof fn moving_exchanges_neighbours(
    s: ManagerState,
    infos: Seq<WindowInfo>,
    forward: bool,
    animate: bool,
    i: int,
    j: int,
)
    requires
        sound(s),
        0 <= i < s.current_ws().windows.len(),
        0 <= j < s.current_ws().windows.len(),
        s.focused_window() == Some(s.current_ws().windows[i]),
        awake(infos, s.current_ws().windows[i]),
        awake(infos, s.current_ws().windows[j]),
        if forward {
            i < j && none_awake(s.current_ws().windows, infos, i + 1, j)
        } else {
            j < i && none_awake(s.current_ws().windows, infos, j + 1, i)
        },
    ensures
        move_outcome(s, infos, forward, animate).state == places_exchanged(s, i, j),
        move_outcome(s, infos, forward, animate).steps == seq![
            layout_step(s.current(), s.current_area(), animate),
            Step::Borders { ws: s.current(), focused: s.focused_window() },
        ],
{
    let ids = s.current_ws().windows;
    let (a, b) = if forward {
        (i, j)
    } else {
        (j, i)
    };
    lemma_current(s);
    lemma_rank_step(ids, infos, a);
    lemma_rank_flat(ids, infos, a + 1, b);
    lemma_ranked(ids, infos, b);
    lemma_ranked(ids, infos, a);
    lemma_exchange_places(s, infos, forward, animate, i, j);
}

/// Likewise in the order of the active windows alone: the moved window goes one
/// place further and the one that was there takes its place.
pub proof fn moving_goes_one_place_further(
    s: ManagerState,
    infos: Seq<WindowInfo>,
    forward: bool,
    animate: bool,
    pos: int,
)
    requires
        sound(s),
        ({
            let shown = active_windows(s.current_ws().windows, infos);
            &&& 0 <= pos < shown.len()
            &&& s.focused_window() == Some(shown[pos])
            &&& if forward {
                pos + 1 < shown.len()
            } else {
                pos > 0
            }
        }),
    ensures
        ({
            let shown = active_windows(s.current_ws().windows, infos);
            let after = active_windows(
                move_outcome(s, infos, forward, animate).state.current_ws().windows,
                infos,
            );
            let to = if forward {
                pos + 1
            } else {
                pos - 1
            };
            after == shown.update(pos, shown[to]).update(to, shown[pos])
        }),
{
    let ids = s.current_ws().windows;
    let shown = active_windows(ids, infos);
    let to = if forward {
        pos + 1
    } else {
        pos - 1
    };
    lemma_current(s);
    assert(s.current_ws().sound());
    lemma_rank_zero(ids, infos);
    let i = lemma_unranked(ids, infos, pos, ids.len() as int);
    let j = lemma_unranked(ids, infos, to, ids.len() as int);
    lemma_ranked(ids, infos, i);
    lemma_ranked(ids, infos, j);
    lemma_exchange_places(s, infos, forward, animate, i, j);
    let after = places_exchanged(s, i, j).current_ws().windows;
    lemma_updated_active(ids, infos, i, j, ids.len() as int);
    assert(after == ids.update(i, ids[j]).update(j, ids[i]));
    assert(after.take(ids.len() as int) =~= after);
    assert(ids.take(ids.len() as int) =~= ids);
    let moved = active_windows(after, infos);
    assert forall|q: int| 0 <= q < shown.len() implies moved[q] == shown.update(
        pos,
        shown[to],
    ).update(to, shown[pos])[q] by {
        let k = lemma_unranked(ids, infos, q, ids.len() as int);
        lemma_ranked(ids, infos, k);
        lemma_updated_active(ids, infos, i, j, k);
        lemma_ranked(after, infos, k);
    }
    assert(moved =~= shown.update(pos, shown[to]).update(to, shown[pos]));
}

/// Exchanging two active windows changes no rank.
proof fn lemma_updated_active(
    ids: Seq<WindowId>,
    infos: Seq<WindowInfo>,
    i: int,
    j: int,
    n: int,
)
    requires
        0 <= i < ids.len(),
        0 <= j < ids.len(),
        awake(infos, ids[i]),
        awake(infos, ids[j]),
        0 <= n <= ids.len(),
    ensures
        rank(ids.update(i, ids[j]).update(j, ids[i]), infos, n) == rank(ids, infos, n),
    decreases n,
{
    let after = ids.update(i, ids[j]).update(j, ids[i]);
    if n > 0 {
        lemma_updated_active(ids, infos, i, j, n - 1);
        lemma_rank_step(ids, infos, n - 1);
        lemma_rank_step(after, infos, n - 1);
    } else {
        lemma_rank_zero(ids, infos);
        lemma_rank_zero(after, infos);
    }
}

/// At the outer edge of the outermost monitor moving goes round: the last active
/// window changes places with the first, and the first with the last.
pub proof fn moving_goes_round_at_the_outer_edge(
    s: ManagerState,
    infos: Seq<WindowInfo>,
    forward: bool,
    animate: bool,
    i: int,
    j: int,
)
    requires
        sound(s),
        0 <= i < s.current_ws().windows.len(),
        0 <= j < s.current_ws().windows.len(),
        s.focused_window() == Some(s.current_ws().windows[i]),
        awake(infos, s.current_ws().windows[i]),
        awake(infos, s.current_ws().windows[j]),
        ({
            let ids = s.current_ws().windows;
            if forward {
                &&& s.focused_mon + 1 == s.monitor_ws.len()
                &&& none_awake(ids, infos, i + 1, ids.len() as int)
                &&& none_awake(ids, infos, 0, j)
            } else {
                &&& s.focused_mon == 0
                &&& none_awake(ids, infos, 0, i)
                &&& none_awake(ids, infos, j + 1, ids.len() as int)
            }
        }),
    ensures
        move_outcome(s, infos, forward, animate).state == places_exchanged(s, i, j),
{
    let ids = s.current_ws().windows;
    let (first, last) = if forward {
        (j, i)
    } else {
        (i, j)
    };
    lemma_rank_zero(ids, infos);
    lemma_rank_flat(ids, infos, 0, first);
    lemma_rank_step(ids, infos, last);
    lemma_rank_flat(ids, infos, last + 1, ids.len() as int);
    lemma_exchange_places(s, infos, forward, animate, i, j);
}

/// `without` drops the one place of a window.
pub proof fn lemma_without_place(ids: Seq<WindowId>, k: int)
    requires
        ids.no_duplicates(),
        0 <= k < ids.len(),
    ensures
        without(ids, ids[k]) == ids.remove(k),
    decreases ids.len(),
{
    let id = ids[k];
    let rest = ids.drop_last();
    if k == ids.len() - 1 {
        assert(!rest.contains(id)) by {
            if rest.contains(id) {
                let j = choose|j: int| 0 <= j < rest.len() && rest[j] == id;
                assert(ids[j] == ids[k]);
            }
        }
        crate::workspace_laws::without_drops_only_it(rest, id);
        assert(ids.remove(k) =~= rest);
    } else {
        lemma_without_place(rest, k);
        assert(rest[k] == id);
        assert(ids.last() != id);
        assert(ids.remove(k) =~= rest.remove(k).push(ids.last()));
    }
}

/// A window moved over the edge toward a neighbouring monitor leaves its
/// workspace and enters the one shown there from the near side: as the first
/// window going forward, as the last going backward.  It keeps the focus, which
/// goes to that monitor with it; no other window changes its place.
pub proof fn crossing_enters_from_the_near_side(
    s: ManagerState,
    infos: Seq<WindowInfo>,
    forward: bool,
    animate: bool,
    i: int,
    neighbour: int,
)
    requires
        sound(s),
        monitors_apart(s),
        0 <= i < s.current_ws().windows.len(),
        s.focused_window() == Some(s.current_ws().windows[i]),
        awake(infos, s.current_ws().windows[i]),
        0 <= neighbour < s.monitor_ws.len(),
        ({
            let ids = s.current_ws().windows;
            if forward {
                neighbour == s.focused_mon + 1 && none_awake(ids, infos, i + 1, ids.len() as int)
            } else {
                neighbour == s.focused_mon - 1 && none_awake(ids, infos, 0, i)
            }
        }),
    ensures
        ({
            let id = s.focused_window()->0;
            let from = s.current() as int;
            let to = s.monitor_ws[neighbour] as int;
            let o = move_outcome(s, infos, forward, animate);
            let t = o.state;
            &&& t.monitor_ws == s.monitor_ws
            &&& t.focused_mon == neighbour
            &&& t.focused_window() == Some(id)
            &&& t.workspaces.len() == s.workspaces.len()
            &&& t.workspaces[from].windows == s.workspaces[from].windows.remove(i)
            &&& t.workspaces[to].windows == (if forward {
                seq![id] + s.workspaces[to].windows
            } else {
                s.workspaces[to].windows + seq![id]
            })
            &&& forall|k: int|
                0 <= k < s.workspaces.len() && k != from && k != to ==> (
                #[trigger] t.workspaces[k]).windows == s.workspaces[k].windows
            &&& o.steps.last() == Step::Do(Command::Focus { id })
        }),
{
    lemma_current(s);
    assert(s.current_ws().sound());
    let ids = s.current_ws().windows;
    let id = ids[i];
    let from = s.current() as int;
    lemma_rank_zero(ids, infos);
    lemma_active_position(ids, infos, i);
    lemma_rank_step(ids, infos, i);
    if forward {
        lemma_rank_flat(ids, infos, i + 1, ids.len() as int);
    } else {
        lemma_rank_flat(ids, infos, 0, i);
    }
    assert(s.monitor_ws.len() <= s.monitor_ws.len() * s.ws_per_mon) by (nonlinear_arith)
        requires
            s.ws_per_mon >= 1,
    ;
    let beyond = neighbour as usize;
    let to = s.monitor_ws[neighbour] as int;
    assert(s.monitor_ws[neighbour] < s.workspaces.len());
    assert(to != from) by {
        if to == from {
            assert(s.monitor_ws[neighbour] == s.monitor_ws[s.focused_mon as int]);
        }
    }
    let o = move_outcome(s, infos, forward, animate);
    assert(o == cross_outcome(s, id, beyond, forward, animate));
    lemma_without_place(ids, i);
    let t = o.state;
    assert(s.workspaces[to].windows.push(id) =~= s.workspaces[to].windows + seq![id]);
    let gone = s.with_ws(from, s.current_ws().removed(id));
    assert(gone.workspaces[to] == s.workspaces[to]);
    assert(t.monitor_ws == s.monitor_ws);
    assert(t.monitor_ws[neighbour] == to);
}

// ── Focusing ─────────────────────────────────────────────────────────────────

/// Where a window stands: a monitor, and a place in the workspace it shows.
pub struct Place {
    pub monitor: int,
    pub index: int,
}

/// The window at a place.
pub open spec fn window_at(s: ManagerState, p: Place) -> WindowId {
    s.workspaces[s.monitor_ws[p.monitor] as int].windows[p.index]
}

/// There is a window at `p` that is not minimised.
pub open spec fn awake_at(s: ManagerState, infos: Seq<WindowInfo>, p: Place) -> bool {
    &&& 0 <= p.monitor < s.monitor_ws.len()
    &&& 0 <= p.index < s.workspaces[s.monitor_ws[p.monitor] as int].windows.len()
    &&& awake(infos, window_at(s, p))
}

/// `p` comes before `q`: on a monitor further left, or earlier on the same one.
pub open spec fn comes_before(p: Place, q: Place) -> bool {
    p.monitor < q.monitor || (p.monitor == q.monitor && p.index < q.index)
}

/// `q` is the place that follows on `p`, over all monitors and round from the
/// last to the first: no place with an active window comes in between.
pub open spec fn next_place(s: ManagerState, infos: Seq<WindowInfo>, p: Place, q: Place) -> bool {
    if comes_before(p, q) {
        forall|r: Place| #[trigger]
            awake_at(s, infos, r) ==> !(comes_before(p, r) && comes_before(r, q))
    } else {
        forall|r: Place| #[trigger]
            awake_at(s, infos, r) ==> !comes_before(p, r) && !comes_before(r, q)
    }
}

/// Where a place stands on the ring.
spec fn ring_index(s: ManagerState, infos: Seq<WindowInfo>, p: Place) -> int {
    focus_ring(s, infos, p.monitor).len() + rank(
        s.workspaces[s.monitor_ws[p.monitor] as int].windows,
        infos,
        p.index,
    )
}

proof fn lemma_ring_prefix(s: ManagerState, infos: Seq<WindowInfo>, a: int, b: int)
    requires
        s.wf(),
        0 <= a <= b <= s.monitor_ws.len(),
    ensures
        focus_ring(s, infos, a).len() <= focus_ring(s, infos, b).len(),
        forall|i: int|
            0 <= i < focus_ring(s, infos, a).len() ==> #[trigger] focus_ring(s, infos, b)[i]
                == focus_ring(s, infos, a)[i] && ring_monitors(s, infos, b)[i] == ring_monitors(
                s,
                infos,
                a,
            )[i],
    decreases b - a,
{
    if a < b {
        lemma_ring_prefix(s, infos, a, b - 1);
        lemma_ring(s, infos, b - 1);
    }
}

proof fn lemma_ring_place(s: ManagerState, infos: Seq<WindowInfo>, p: Place)
    requires
        s.wf(),
        awake_at(s, infos, p),
    ensures
        ({
            let n = s.monitor_ws.len() as int;
            let i = ring_index(s, infos, p);
            &&& 0 <= focus_ring(s, infos, p.monitor).len() <= i < focus_ring(
                s,
                infos,
                p.monitor + 1,
            ).len() <= focus_ring(s, infos, n).len()
            &&& focus_ring(s, infos, n)[i] == window_at(s, p)
            &&& ring_monitors(s, infos, n)[i] == p.monitor
        }),
{
    let n = s.monitor_ws.len() as int;
    let m = p.monitor;
    let ids = s.workspaces[s.monitor_ws[m] as int].windows;
    lemma_ranked(ids, infos, p.index);
    lemma_ring(s, infos, m);
    lemma_ring_prefix(s, infos, m + 1, n);
    let i = ring_index(s, infos, p);
    assert(s.monitor_ws.len() <= s.monitor_ws.len() * s.ws_per_mon) by (nonlinear_arith)
        requires
            s.ws_per_mon >= 1,
    ;
    assert(focus_ring(s, infos, m + 1)[i] == window_at(s, p));
    assert(ring_monitors(s, infos, m + 1)[i] == m);
    assert(focus_ring(s, infos, n)[i] == focus_ring(s, infos, m + 1)[i]);
}

/// Places stand on the ring in their order.
proof fn lemma_ring_order(s: ManagerState, infos: Seq<WindowInfo>, p: Place, q: Place)
    requires
        s.wf(),
        awake_at(s, infos, p),
        awake_at(s, infos, q),
    ensures
        comes_before(p, q) <==> ring_index(s, infos, p) < ring_index(s, infos, q),
{
    lemma_ring_place(s, infos, p);
    lemma_ring_place(s, infos, q);
    if p.monitor < q.monitor {
        lemma_ring_prefix(s, infos, p.monitor + 1, q.monitor);
    } else if q.monitor < p.monitor {
        lemma_ring_prefix(s, infos, q.monitor + 1, p.monitor);
    } else {
        let ids = s.workspaces[s.monitor_ws[p.monitor] as int].windows;
        lemma_rank_step(ids, infos, p.index);
        lemma_rank_step(ids, infos, q.index);
        if p.index < q.index {
            lemma_rank_prefix(ids, infos, p.index + 1, q.index);
        } else if q.index < p.index {
            lemma_rank_prefix(ids, infos, q.index + 1, p.index);
        }
    }
}

/// Every place of the ring is that of an active window.
proof fn lemma_ring_inverse(s: ManagerState, infos: Seq<WindowInfo>, i: int, n: int) -> (p: Place)
    requires
        s.wf(),
        0 <= n <= s.monitor_ws.len(),
        0 <= i < focus_ring(s, infos, n).len(),
    ensures
        awake_at(s, infos, p),
        ring_index(s, infos, p) == i,
    decreases n,
{
    if n == 0 {
        Place { monitor: 0, index: 0 }
    } else {
        let before = focus_ring(s, infos, n - 1).len() as int;
        if i < before {
            lemma_ring_inverse(s, infos, i, n - 1)
        } else {
            let ids = s.workspaces[s.monitor_ws[n - 1] as int].windows;
            lemma_rank_zero(ids, infos);
            let k = lemma_unranked(ids, infos, i - before, ids.len() as int);
            Place { monitor: n - 1, index: k }
        }
    }
}

/// Consecutive places are consecutive on the ring, and the last leads back to
/// the first.
proof fn lemma_next_on_ring(s: ManagerState, infos: Seq<WindowInfo>, p: Place, q: Place)
    requires
        s.wf(),
        awake_at(s, infos, p),
        awake_at(s, infos, q),
        next_place(s, infos, p, q),
    ensures
        ({
            let len = focus_ring(s, infos, s.monitor_ws.len() as int).len() as int;
            let a = ring_index(s, infos, p);
            let b = ring_index(s, infos, q);
            &&& b == beside(a, len, true)
            &&& a == beside(b, len, false)
        }),
{
    let n = s.monitor_ws.len() as int;
    let len = focus_ring(s, infos, n).len() as int;
    let a = ring_index(s, infos, p);
    let b = ring_index(s, infos, q);
    lemma_ring_place(s, infos, p);
    lemma_ring_place(s, infos, q);
    lemma_ring_order(s, infos, p, q);
    if comes_before(p, q) {
        if a + 1 < b {
            let r = lemma_ring_inverse(s, infos, a + 1, n);
            lemma_ring_order(s, infos, p, r);
            lemma_ring_order(s, infos, r, q);
        }
    } else {
        if a + 1 < len {
            let r = lemma_ring_inverse(s, infos, a + 1, n);
            lemma_ring_order(s, infos, p, r);
        }
        if b > 0 {
            let r = lemma_ring_inverse(s, infos, 0, n);
            lemma_ring_order(s, infos, r, q);
        }
    }
}

/// Focusing the next window gives the focus to the active window at the next
/// place over all monitors, left to right, and from the last round to the first;
/// focusing the previous window goes the other way.  Its monitor becomes the
/// focused one, the window is told, and no window changes its place.
pub proof fn focusing_goes_to_the_next_place(
    s: ManagerState,
    infos: Seq<WindowInfo>,
    forward: bool,
    p: Place,
    q: Place,
)
    requires
        sound(s),
        monitors_apart(s),
        awake_at(s, infos, p),
        awake_at(s, infos, q),
        p.monitor == s.focused_mon,
        s.focused_window() == Some(window_at(s, p)),
        if forward {
            next_place(s, infos, p, q)
        } else {
            next_place(s, infos, q, p)
        },
    ensures
        ({
            let o = focus_outcome(s, infos, forward);
            let t = o.state;
            &&& t.monitor_ws == s.monitor_ws
            &&& t.focused_mon == q.monitor
            &&& t.focused_window() == Some(window_at(s, q))
            &&& o.steps.last() == Step::Do(Command::Focus { id: window_at(s, q) })
            &&& t.workspaces.len() == s.workspaces.len()
            &&& forall|k: int|
                0 <= k < s.workspaces.len() ==> (#[trigger] t.workspaces[k]).windows
                    == s.workspaces[k].windows
        }),
{
    let n = s.monitor_ws.len() as int;
    let ring = focus_ring(s, infos, n);
    lemma_ring_no_duplicates(s, infos, n);
    lemma_ring_place(s, infos, p);
    lemma_ring_place(s, infos, q);
    if forward {
        lemma_next_on_ring(s, infos, p, q);
    } else {
        lemma_next_on_ring(s, infos, q, p);
    }
    let i = ring_index(s, infos, p);
    lemma_position(ring, window_at(s, p));
    assert(ring.contains(window_at(s, p)));
    assert(place_in(ring, s.focused_window()) == i);
    let mon = ring_monitors(s, infos, n)[ring_index(s, infos, q)];
    let there = ManagerState { focused_mon: mon, ..s };
    assert(s.monitor_ws[q.monitor] < s.workspaces.len());
    assert(there.monitor_ws[q.monitor] == s.monitor_ws[q.monitor]);
    assert(there.visible(s.monitor_ws[q.monitor] as int));
}

/// Where no active window has the focus, focusing goes on from the first active
/// one, as if that had it.
pub proof fn focusing_without_focus_starts_at_the_first_place(
    s: ManagerState,
    infos: Seq<WindowInfo>,
    forward: bool,
    p: Place,
    q: Place,
)
    requires
        s.wf(),
        awake_at(s, infos, p),
        awake_at(s, infos, q),
        forall|r: Place| #[trigger]
            awake_at(s, infos, r) ==> !comes_before(r, p) && s.focused_window() != Some(
                window_at(s, r),
            ),
        if forward {
            next_place(s, infos, p, q)
        } else {
            next_place(s, infos, q, p)
        },
    ensures
        focus_outcome(s, infos, forward).state.focused_mon == q.monitor,
        focus_outcome(s, infos, forward).steps.last() == Step::Do(
            Command::Focus { id: window_at(s, q) },
        ),
{
    let n = s.monitor_ws.len() as int;
    let ring = focus_ring(s, infos, n);
    lemma_ring_place(s, infos, p);
    lemma_ring_place(s, infos, q);
    if forward {
        lemma_next_on_ring(s, infos, p, q);
    } else {
        lemma_next_on_ring(s, infos, q, p);
    }
    if ring_index(s, infos, p) > 0 {
        let r = lemma_ring_inverse(s, infos, 0, n);
        lemma_ring_order(s, infos, r, p);
    }
    if let Some(id) = s.focused_window() {
        lemma_position(ring, id);
        if position(ring, id) is Some {
            let i = position(ring, id)->0;
            let r = lemma_ring_inverse(s, infos, i, n);
            lemma_ring_place(s, infos, r);
        }
    }
    assert(place_in(ring, s.focused_window()) == 0);
}

/// Where every window is minimised there is nothing to focus.
pub proof fn focusing_among_minimised_windows_does_nothing(
    s: ManagerState,
    infos: Seq<WindowInfo>,
    forward: bool,
)
    requires
        s.wf(),
        forall|p: Place| !#[trigger] awake_at(s, infos, p),
    ensures
        focus_outcome(s, infos, forward).state == s,
        focus_outcome(s, infos, forward).steps.len() == 0,
{
    let n = s.monitor_ws.len() as int;
    if focus_ring(s, infos, n).len() > 0 {
        let p = lemma_ring_inverse(s, infos, 0, n);
        assert(awake_at(s, infos, p));
    }
}

/// Without a focused window, or with a minimised one, moving does nothing.
pub proof fn moving_a_minimised_window_does_nothing(
    s: ManagerState,
    infos: Seq<WindowInfo>,
    forward: bool,
    animate: bool,
)
    requires
        s.focused_window() matches Some(id) ==> !awake(infos, id),
    ensures
        move_outcome(s, infos, forward, animate).state == s,
        move_outcome(s, infos, forward, animate).steps.len() == 0,
{
    if let Some(id) = s.focused_window() {
        let ids = s.current_ws().windows;
        let shown = active_windows(ids, infos);
        lemma_position(shown, id);
        if position(shown, id) is Some {
            ids.lemma_filter_pred(is_active(infos), position(shown, id)->0);
        }
    }
}

} // verus!
