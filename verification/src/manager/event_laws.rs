//! What each event leads to: where windows go and what is laid out.

use crate::config::TaskbarMode;
use crate::geometry::{centre, distance_squared};
use crate::layout::LayoutKind;
use crate::manager::action_laws::monitors_apart;
use crate::manager::actions::exchanged;
use crate::manager::events::{
    area_outcome, areas_known, created_outcome, destroyed_outcome, dropped, focused_outcome,
    is_partner, lemma_monitor_at, lemma_seeded, minimize_outcome, monitor_at, monitor_found, moved_outcome,
    nearest_window, nearest_window_is_nearest, partners, relayout_steps, seed_steps, seeded, window_centre,
};
use crate::manager::info::{info_of, WindowInfo};
use crate::manager::laws::{held, lemma_holding, lemma_owner, sound};
use crate::manager::order_laws::lemma_without_place;
use crate::manager::reload::lemma_even_share;
use crate::manager::state::{
    even_share, initial_state, lemma_visible_place, monitor_showing, nearest_monitor,
    nearest_monitor_is_nearest, visible_place, ws_holding, ManagerState,
};
use crate::manager::step::{Command, Step};
use crate::window::{Rect, WindowId};
use crate::workspace::{lemma_position, WorkspaceView};
use crate::workspace_laws::removing_a_stranger_changes_nothing;
use vstd::prelude::*;

verus! {

/// How far two numbers are apart.
pub open spec fn far(a: int, b: int) -> int {
    if a <= b {
        b - a
    } else {
        a - b
    }
}

/// Monitor `m` is the first whose left edge is nearest to `x`.
pub open spec fn is_nearest(rects: Seq<Rect>, x: int, m: int) -> bool {
    &&& 0 <= m < rects.len()
    &&& forall|j: int|
        0 <= j < rects.len() ==> far(rects[m].x as int, x) <= far(
            (#[trigger] rects[j]).x as int,
            x,
        ) && (j < m ==> far(rects[m].x as int, x) < far(rects[j].x as int, x))
}

proof fn lemma_nearest(rects: Seq<Rect>, x: int, m: int)
    requires
        is_nearest(rects, x, m),
    ensures
        nearest_monitor(rects, x, rects.len() as int) == m,
{
    let n = rects.len() as int;
    let found = nearest_monitor(rects, x, n);
    nearest_monitor_is_nearest(rects, x, n, m);
    nearest_monitor_is_nearest(rects, x, n, 0);
    assert(far(rects[m].x as int, x) <= far(rects[found].x as int, x));
}

// ── Laying everything out ────────────────────────────────────────────────────

proof fn lemma_relayout(s: ManagerState, areas: Seq<Rect>, n: int, raise: bool, m: int)
    requires
        0 <= m < n <= areas.len(),
        n <= s.monitor_ws.len(),
    ensures
        relayout_steps(s, areas, n, raise).contains(
            Step::Layout { ws: s.monitor_ws[m], area: areas[m] },
        ),
        relayout_steps(s, areas, n, raise).contains(
            Step::Borders {
                ws: s.monitor_ws[m],
                focused: s.workspaces[s.monitor_ws[m] as int].focused,
            },
        ),
    decreases n,
{
    let head = relayout_steps(s, areas, n - 1, raise);
    let all = relayout_steps(s, areas, n, raise);
    let ws = s.monitor_ws[m];
    if m == n - 1 {
        assert(all[head.len() as int] == Step::Layout { ws, area: areas[m] });
        assert(all[head.len() as int + 1] == s.borders(ws));
    } else {
        lemma_relayout(s, areas, n - 1, raise, m);
        let a = Step::Layout { ws, area: areas[m] };
        let b = s.borders(ws);
        let i = choose|i: int| 0 <= i < head.len() && head[i] == a;
        let j = choose|j: int| 0 <= j < head.len() && head[j] == b;
        assert(all[i] == a && all[j] == b);
    }
}

/// Every monitor's workspace is laid out on that monitor's area, and its borders
/// are painted.
pub open spec fn lays_out_everything(s: ManagerState, areas: Seq<Rect>, steps: Seq<Step>) -> bool {
    forall|m: int|
        0 <= m < s.monitor_ws.len() ==> steps.contains(
            Step::Layout { ws: #[trigger] s.monitor_ws[m], area: areas[m] },
        ) && steps.contains(
            Step::Borders {
                ws: s.monitor_ws[m],
                focused: s.workspaces[s.monitor_ws[m] as int].focused,
            },
        )
}

proof fn lemma_lays_out(s: ManagerState, areas: Seq<Rect>, raise: bool)
    requires
        areas_known(s, areas),
    ensures
        lays_out_everything(
            s,
            areas,
            relayout_steps(s, areas, s.monitor_ws.len() as int, raise).push(Step::Broadcast),
        ),
{
    let n = s.monitor_ws.len() as int;
    let some = relayout_steps(s, areas, n, raise);
    let all = some.push(Step::Broadcast);
    assert forall|m: int| 0 <= m < n implies all.contains(
        Step::Layout { ws: #[trigger] s.monitor_ws[m], area: areas[m] },
    ) && all.contains(
        Step::Borders {
            ws: s.monitor_ws[m],
            focused: s.workspaces[s.monitor_ws[m] as int].focused,
        },
    ) by {
        lemma_relayout(s, areas, n, raise, m);
        let a = Step::Layout { ws: s.monitor_ws[m], area: areas[m] };
        let b = s.borders(s.monitor_ws[m]);
        let i = choose|i: int| 0 <= i < some.len() && some[i] == a;
        let j = choose|j: int| 0 <= j < some.len() && some[j] == b;
        assert(all[i] == a && all[j] == b);
    }
}

/// When the usable areas change, the new ones are taken over, every workspace
/// shown is laid out on its new area, and no window changes its place.
pub proof fn changed_areas_are_laid_out(s: ManagerState, areas: Seq<Rect>)
    requires
        s.wf(),
        s.monitor_ws.len() <= areas.len(),
    ensures
        area_outcome(s, areas).state == (ManagerState { monitor_rects: areas, ..s }),
        lays_out_everything(s, areas, area_outcome(s, areas).steps),
{
    let after = ManagerState { monitor_rects: areas, ..s };
    lemma_lays_out(after, areas, false);
}

// ── Windows that come and go ─────────────────────────────────────────────────

/// A new window becomes the last of the workspace that the nearest monitor
/// shows, and has its focus if it had none.  That workspace is laid out on its
/// monitor; the others stay as they are.
pub proof fn a_new_window_joins_the_nearest_monitor(
    s: ManagerState,
    id: WindowId,
    x: i32,
    m: int,
)
    requires
        sound(s),
        is_nearest(s.monitor_rects, x as int, m),
        m < s.monitor_ws.len(),
        !held(s, id),
    ensures
        ({
            let o = created_outcome(s, id, x);
            let t = o.state;
            let ws = s.monitor_ws[m] as int;
            let w = s.workspaces[ws];
            &&& t.workspaces[ws].windows == w.windows.push(id)
            &&& t.workspaces[ws].focused == (if w.focused is None {
                Some(id)
            } else {
                w.focused
            })
            &&& t.workspaces[ws].fullscreen == w.fullscreen
            &&& forall|k: int|
                0 <= k < s.workspaces.len() && k != ws ==> #[trigger] t.workspaces[k]
                    == s.workspaces[k]
            &&& t.monitor_ws == s.monitor_ws && t.focused_mon == s.focused_mon
            &&& o.steps[0] == Step::Layout { ws: s.monitor_ws[m], area: s.monitor_rects[m] }
            &&& o.steps.last() == Step::Broadcast
        }),
{
    lemma_nearest(s.monitor_rects, x as int, m);
    assert(s.monitor_ws[m] < s.workspaces.len());
    let ws = s.monitor_ws[m] as int;
    assert(!s.workspaces[ws].windows.contains(id));
}

/// A destroyed window leaves the order of its workspace; the others close up.
/// If it had the focus, the last window of the workspace gets it.  No other
/// workspace changes, and everything shown is laid out again.
pub proof fn a_destroyed_window_leaves_the_order(s: ManagerState, i: int, k: int)
    requires
        sound(s),
        s.monitor_ws.len() <= s.monitor_rects.len(),
        0 <= i < s.workspaces.len(),
        0 <= k < s.workspaces[i].windows.len(),
    ensures
        ({
            let w = s.workspaces[i];
            let id = w.windows[k];
            let o = destroyed_outcome(s, id);
            let t = o.state;
            let rest = w.windows.remove(k);
            &&& t.workspaces[i].windows == rest
            &&& t.workspaces[i].focused == (if w.focused != Some(id) {
                w.focused
            } else if rest.len() == 0 {
                None
            } else {
                Some(rest.last())
            })
            &&& forall|j: int|
                0 <= j < s.workspaces.len() && j != i ==> #[trigger] t.workspaces[j]
                    == s.workspaces[j]
            &&& t.monitor_ws == s.monitor_ws && t.focused_mon == s.focused_mon
            &&& lays_out_everything(t, s.monitor_rects, o.steps)
        }),
{
    let w = s.workspaces[i];
    let id = w.windows[k];
    assert(w.sound());
    assert(w.windows.contains(id));
    lemma_without_place(w.windows, k);
    let t = destroyed_outcome(s, id).state;
    assert forall|j: int| 0 <= j < s.workspaces.len() && j != i implies #[trigger] t.workspaces[j]
        == s.workspaces[j] by {
        assert(s.workspaces[j].sound());
        assert(!s.workspaces[j].windows.contains(id)) by {
            if s.workspaces[j].windows.contains(id) {
                assert(s.workspaces[i].windows.contains(id));
            }
        }
        removing_a_stranger_changes_nothing(s.workspaces[j], id);
    }
    lemma_lays_out(t, s.monitor_rects, true);
}

/// After a window is gone the focused window of every monocle workspace that is
/// shown is brought to the top.
pub proof fn monocle_windows_are_raised_when_one_is_gone(
    s: ManagerState,
    id: WindowId,
    m: int,
    f: WindowId,
)
    requires
        s.wf(),
        0 <= m < s.monitor_ws.len(),
        ({
            let w = destroyed_outcome(s, id).state.workspaces[s.monitor_ws[m] as int];
            w.layout is Monocle && w.focused == Some(f)
        }),
    ensures
        destroyed_outcome(s, id).steps.contains(Step::Do(Command::Raise { id: f })),
{
    let t = destroyed_outcome(s, id).state;
    let n = s.monitor_ws.len() as int;
    lemma_relayout_raises(t, s.monitor_rects, n, m, f);
    let some = relayout_steps(t, s.monitor_rects, n, true);
    let c = Step::Do(Command::Raise { id: f });
    let i = choose|i: int| 0 <= i < some.len() && some[i] == c;
    assert(destroyed_outcome(s, id).steps[i] == c);
}

proof fn lemma_relayout_raises(s: ManagerState, areas: Seq<Rect>, n: int, m: int, f: WindowId)
    requires
        0 <= m < n <= s.monitor_ws.len(),
        s.workspaces[s.monitor_ws[m] as int].layout is Monocle,
        s.workspaces[s.monitor_ws[m] as int].focused == Some(f),
    ensures
        relayout_steps(s, areas, n, true).contains(Step::Do(Command::Raise { id: f })),
    decreases n,
{
    let head = relayout_steps(s, areas, n - 1, true);
    let all = relayout_steps(s, areas, n, true);
    let c = Step::Do(Command::Raise { id: f });
    if m == n - 1 {
        assert(all[head.len() as int + 2] == c);
    } else {
        lemma_relayout_raises(s, areas, n - 1, m, f);
        let i = choose|i: int| 0 <= i < head.len() && head[i] == c;
        assert(all[i] == c);
    }
}

/// Among the windows taken in at startup each joins the workspace that the
/// nearest monitor shows.
pub proof fn startup_windows_join_the_nearest_monitor(
    s: ManagerState,
    infos: Seq<WindowInfo>,
    n: int,
    i: int,
    m: int,
)
    requires
        s.wf(),
        0 <= i < n <= infos.len(),
        forall|j: int|
            0 <= j < infos.len() ==> monitor_found(s, (#[trigger] infos[j]).work_rect.x),
        is_nearest(s.monitor_rects, infos[i].work_rect.x as int, m),
    ensures
        seeded(s, infos, n).workspaces[s.monitor_ws[m] as int].windows.contains(infos[i].id),
        seeded(s, infos, n).monitor_ws == s.monitor_ws,
    decreases n,
{
    lemma_nearest(s.monitor_rects, infos[i].work_rect.x as int, m);
    assert(monitor_found(s, infos[i].work_rect.x));
    assert(s.monitor_ws[m] < s.workspaces.len());
    lemma_seeded(s, infos, n - 1);
    let before = seeded(s, infos, n - 1);
    let at = s.monitor_ws[monitor_at(s, infos[n - 1].work_rect.x)] as int;
    let ws = s.monitor_ws[m] as int;
    let id = infos[i].id;
    let x = infos[n - 1].work_rect.x;
    assert(monitor_found(s, x));
    lemma_monitor_at(s, x);
    assert(s.monitor_ws[monitor_at(s, x)] < s.workspaces.len());
    assert(seeded(s, infos, n) == before.with_ws(
        at,
        before.workspaces[at].added(infos[n - 1].id),
    ));
    if i < n - 1 {
        startup_windows_join_the_nearest_monitor(s, infos, n - 1, i, m);
        let ids = before.workspaces[ws].windows;
        let k = choose|k: int| 0 <= k < ids.len() && ids[k] == id;
        let more = seeded(s, infos, n).workspaces[ws].windows;
        if at == ws {
            crate::workspace_laws::lemma_push_contains(ids, infos[n - 1].id, id);
        }
    } else {
        let ids = before.workspaces[ws].windows;
        crate::workspace_laws::lemma_push_contains(ids, id, id);
    }
}

/// After the windows at startup are taken in, every monitor whose workspace holds
/// windows has it laid out on its area and its borders painted.
pub proof fn startup_lays_out_the_windows(s: ManagerState, n: int, m: int)
    requires
        0 <= m < n <= s.monitor_ws.len(),
        s.workspaces[s.monitor_ws[m] as int].windows.len() > 0,
    ensures
        seed_steps(s, n).contains(
            Step::Layout { ws: s.monitor_ws[m], area: s.monitor_rects[m] },
        ),
        seed_steps(s, n).contains(s.borders(s.monitor_ws[m])),
    decreases n,
{
    let head = seed_steps(s, n - 1);
    let all = seed_steps(s, n);
    let a = Step::Layout { ws: s.monitor_ws[m], area: s.monitor_rects[m] };
    let b = s.borders(s.monitor_ws[m]);
    if m == n - 1 {
        assert(all[head.len() as int] == a);
        assert(all[head.len() as int + 1] == b);
    } else {
        startup_lays_out_the_windows(s, n - 1, m);
        let i = choose|i: int| 0 <= i < head.len() && head[i] == a;
        let j = choose|j: int| 0 <= j < head.len() && head[j] == b;
        assert(all[i] == a && all[j] == b);
    }
}

/// At startup the workspaces are shared out evenly over the monitors, in order:
/// every monitor has as many as any other, but for the last ones, where there
/// are not enough.  Each monitor shows the first of its own.
pub proof fn startup_shares_out_the_workspaces(
    names: Seq<Seq<char>>,
    layout: LayoutKind,
    rects: Seq<Rect>,
    animations: bool,
    taskbar: TaskbarMode,
)
    requires
        names.len() >= 1,
        names.len() + rects.len() < usize::MAX,
    ensures
        ({
            let s = initial_state(names, layout, rects, animations, taskbar);
            let share = s.ws_per_mon as int;
            let monitors = s.monitor_ws.len() as int;
            &&& monitors == (if rects.len() == 0 {
                1
            } else {
                rects.len() as int
            })
            &&& (share - 1) * monitors < names.len() <= share * monitors
            &&& forall|m: int|
                0 <= m < monitors && m * share < names.len() ==> #[trigger] s.monitor_ws[m] == m
                    * share
            &&& s.focused_mon == 0
            &&& s.workspaces.len() == names.len()
            &&& forall|i: int|
                0 <= i < names.len() ==> (#[trigger] s.workspaces[i]).name == names[i]
                    && s.workspaces[i].layout == layout && s.workspaces[i].windows.len() == 0
        }),
{
    let s = initial_state(names, layout, rects, animations, taskbar);
    let n = names.len() as int;
    let monitors = s.monitor_ws.len() as int;
    let share = even_share(n, monitors);
    lemma_even_share(n, monitors);
    assert((share - 1) * monitors == monitors * share - monitors && share * monitors == monitors
        * share) by (nonlinear_arith);
    assert forall|m: int| 0 <= m < monitors && m * share < n implies #[trigger] s.monitor_ws[m] == m
        * share by {
        assert(0 <= m * share) by (nonlinear_arith)
            requires
                0 <= m,
                1 <= share,
        ;
    }
}

// ── Focus from outside ───────────────────────────────────────────────────────

proof fn lemma_shown_at(s: ManagerState, id: WindowId, m: int, n: int)
    requires
        sound(s),
        monitors_apart(s),
        0 <= m < s.monitor_ws.len(),
        0 <= n <= s.monitor_ws.len(),
        s.workspaces[s.monitor_ws[m] as int].windows.contains(id),
    ensures
        monitor_showing(s, id, n) == (if m < n {
            Some(m)
        } else {
            None
        }),
    decreases n,
{
    if n > 0 {
        lemma_shown_at(s, id, m, n - 1);
        assert(s.monitor_ws[n - 1] < s.workspaces.len());
        assert(s.monitor_ws[m] < s.workspaces.len());
        if s.workspaces[s.monitor_ws[n - 1] as int].windows.contains(id) {
            assert(s.monitor_ws[n - 1] == s.monitor_ws[m]);
        }
    }
}

/// A window of a shown workspace that gets the focus has it afterwards, on its
/// monitor, and no other shown workspace keeps one.  Nothing else changes.
pub proof fn a_shown_window_gets_the_focus(
    s: ManagerState,
    id: WindowId,
    m: int,
    animate: bool,
)
    requires
        sound(s),
        monitors_apart(s),
        0 <= m < s.monitor_ws.len(),
        s.workspaces[s.monitor_ws[m] as int].windows.contains(id),
    ensures
        ({
            let o = focused_outcome(s, id, animate);
            let t = o.state;
            &&& t.monitor_ws == s.monitor_ws
            &&& t.focused_mon == m
            &&& t.focused_window() == Some(id)
            &&& forall|k: int|
                0 <= k < s.workspaces.len() ==> (#[trigger] t.workspaces[k]).windows
                    == s.workspaces[k].windows && t.workspaces[k].layout == s.workspaces[k].layout
            &&& forall|j: int|
                0 <= j < s.monitor_ws.len() && j != m ==> t.workspaces[(
                #[trigger] s.monitor_ws[j]) as int].focused is None
            &&& o.steps.last() == Step::Broadcast
        }),
{
    let n = s.monitor_ws.len() as int;
    lemma_shown_at(s, id, m, n);
    let ws = s.monitor_ws[m];
    assert(s.monitor_ws[m] < s.workspaces.len());
    assert(s.monitor_ws.len() <= s.monitor_ws.len() * s.ws_per_mon) by (nonlinear_arith)
        requires
            s.ws_per_mon >= 1,
    ;
    assert(visible_place(s, id) == Some((ws, m)));
    let there = ManagerState { focused_mon: m as usize, ..s };
    assert(there.visible(ws as int)) by {
        assert(there.monitor_ws[m] == ws);
    }
    let t = focused_outcome(s, id, animate).state;
    assert(t == there.focusing(id, ws as int));
    assert forall|j: int| 0 <= j < n && j != m implies t.workspaces[(
    #[trigger] s.monitor_ws[j]) as int].focused is None by {
        assert(s.monitor_ws[j] < s.workspaces.len());
        assert(there.monitor_ws[j] == s.monitor_ws[j]);
        assert(there.visible(s.monitor_ws[j] as int));
        assert(s.monitor_ws[j] != s.monitor_ws[m]);
    }
}

/// A window of a workspace that is not shown brings its workspace up on the
/// monitor that owns it, and has the focus there; the other monitors show what
/// they showed.
pub proof fn a_hidden_window_brings_up_its_workspace(
    s: ManagerState,
    id: WindowId,
    i: int,
    animate: bool,
)
    requires
        sound(s),
        0 <= i < s.workspaces.len(),
        s.workspaces[i].windows.contains(id),
        !s.visible(i),
    ensures
        ({
            let o = focused_outcome(s, id, animate);
            let t = o.state;
            &&& t.monitor_ws == s.monitor_ws.update(s.owner(i), i as usize)
            &&& t.focused_mon == s.owner(i)
            &&& t.focused_window() == Some(id)
            &&& o.steps.contains(Step::Do(Command::Focus { id }))
            &&& o.steps.contains(Step::Do(Command::Show { id }))
        }),
{
    lemma_owner(s, i);
    lemma_visible_place(s, id);
    if visible_place(s, id) is Some {
        let (ws, m) = visible_place(s, id)->0;
        assert(s.monitor_ws[m] < s.workspaces.len());
        assert(s.workspaces[ws as int].windows.contains(id));
        assert(ws == i);
        assert(s.visible(i));
    }
    let n = s.workspaces.len() as int;
    lemma_holding(s.workspaces, id, n);
    let found = ws_holding(s.workspaces, id, n);
    assert(found == Some(i)) by {
        if found is None {
            assert(!s.workspaces[i].windows.contains(id));
        } else {
            assert(s.workspaces[found->0].windows.contains(id));
        }
    }
    assert(s.monitor_ws.len() <= s.monitor_ws.len() * s.ws_per_mon) by (nonlinear_arith)
        requires
            s.ws_per_mon >= 1,
    ;
    let mon = s.owner(i);
    let shown = ManagerState {
        monitor_ws: s.monitor_ws.update(mon, i as usize),
        focused_mon: mon as usize,
        ..s
    };
    assert(shown.monitor_ws[mon] == i);
    assert(shown.visible(i));
    let o = focused_outcome(s, id, animate);
    let len = o.steps.len() as int;
    assert(o.steps[len - 2] == Step::Do(Command::Focus { id }));
    let ids = s.workspaces[i].windows;
    let k = choose|k: int| 0 <= k < ids.len() && ids[k] == id;
    if animate {
        assert(o.steps[ids.len() + k] == Step::Do(Command::Show { id }));
    } else {
        assert(o.steps[k] == Step::Do(Command::Show { id }));
    }
}

// ── Dragged windows ──────────────────────────────────────────────────────────

/// `id` is known and neither floating nor minimised.
pub open spec fn in_layout(infos: Seq<WindowInfo>, id: WindowId) -> bool {
    info_of(infos, id) matches Some(w) && !w.floating && !w.minimized
}

/// How far the centres of two known windows are apart, squared.
pub open spec fn centres_apart(infos: Seq<WindowInfo>, a: WindowId, b: WindowId) -> int {
    let (ax, ay) = centre(info_of(infos, a)->0.geometry);
    let (bx, by) = centre(info_of(infos, b)->0.geometry);
    (ax - bx) * (ax - bx) + (ay - by) * (ay - by)
}

/// The window at place `j` takes part in the layout and is the first whose
/// centre is nearest to that of the window at place `i`, itself left out.
pub open spec fn nearest_tile(
    ids: Seq<WindowId>,
    infos: Seq<WindowInfo>,
    i: int,
    j: int,
) -> bool {
    &&& 0 <= i < ids.len() && 0 <= j < ids.len() && j != i
    &&& in_layout(infos, ids[j])
    &&& forall|k: int|
        0 <= k < ids.len() && k != i && in_layout(infos, #[trigger] ids[k]) ==> {
            &&& centres_apart(infos, ids[i], ids[j]) <= centres_apart(infos, ids[i], ids[k])
            &&& k < j ==> centres_apart(infos, ids[i], ids[j]) < centres_apart(
                infos,
                ids[i],
                ids[k],
            )
        }
}

/// What is left of a list keeps its order.
pub proof fn lemma_filter_order(
    ids: Seq<WindowId>,
    p: spec_fn(WindowId) -> bool,
    a: int,
    b: int,
    ka: int,
    kb: int,
)
    requires
        ids.no_duplicates(),
        0 <= a < b < ids.filter(p).len(),
        0 <= ka < ids.len(),
        0 <= kb < ids.len(),
        ids.filter(p)[a] == ids[ka],
        ids.filter(p)[b] == ids[kb],
    ensures
        ka < kb,
    decreases ids.len(),
{
    reveal(Seq::filter);
    let rest = ids.drop_last();
    let left = rest.filter(p);
    let n = ids.len() - 1;
    assert forall|q: int| 0 <= q < left.len() implies rest.contains(#[trigger] left[q]) by {
        assert(left.contains(left[q]));
        rest.lemma_filter_contains_rev(p, left[q]);
    }
    assert(left[a] == ids[ka]);
    let qa = choose|q: int| 0 <= q < rest.len() && rest[q] == left[a];
    assert(ids[qa] == ids[ka]);
    if b < left.len() {
        let qb = choose|q: int| 0 <= q < rest.len() && rest[q] == left[b];
        assert(ids[qb] == ids[kb]);
        lemma_filter_order(rest, p, a, b, ka, kb);
    } else {
        assert(ids.filter(p)[b] == ids[n]);
    }
}

/// A tiled window that is dropped on its own monitor changes places with the
/// tile whose centre is nearest to its own; nothing else changes its place, and
/// the workspace is laid out again.
pub proof fn a_dropped_window_takes_the_nearest_place(
    s: ManagerState,
    infos: Seq<WindowInfo>,
    m: int,
    i: int,
    j: int,
)
    requires
        sound(s),
        monitors_apart(s),
        0 <= m < s.monitor_ws.len(),
        nearest_tile(s.workspaces[s.monitor_ws[m] as int].windows, infos, i, j),
        ({
            let id = s.workspaces[s.monitor_ws[m] as int].windows[i];
            &&& info_of(infos, id) matches Some(w) && !w.floating
            &&& is_nearest(s.monitor_rects, info_of(infos, id)->0.geometry.x as int, m)
        }),
    ensures
        ({
            let ws = s.monitor_ws[m];
            let ids = s.workspaces[ws as int].windows;
            let o = moved_outcome(s, ids[i], infos);
            &&& o.state == s.with_ws(
                ws as int,
                WorkspaceView {
                    windows: ids.update(i, ids[j]).update(j, ids[i]),
                    ..s.workspaces[ws as int]
                },
            )
            &&& o.steps[0] == Step::Layout { ws, area: s.monitor_rects[m] }
        }),
{
    let ws = s.monitor_ws[m];
    assert(s.monitor_ws[m] < s.workspaces.len());
    let ids = s.workspaces[ws as int].windows;
    assert(s.workspaces[ws as int].sound());
    let id = ids[i];
    assert(ids.contains(id));
    lemma_shown_at(s, id, m, s.monitor_ws.len() as int);
    assert(visible_place(s, id) == Some((ws, m)));
    let w = info_of(infos, id)->0;
    lemma_nearest(s.monitor_rects, w.geometry.x as int, m);
    let p = is_partner(id, infos);
    let others = partners(ids, id, infos);
    let at = window_centre(infos, id);
    assert(p(ids[j]));
    ids.lemma_filter_contains(p, j);
    let jj = choose|q: int| 0 <= q < others.len() && others[q] == ids[j];
    let best = nearest_window(infos, others, at, others.len() as int);
    nearest_window_is_nearest(infos, others, at, others.len() as int, jj);
    assert(others.contains(others[best]));
    ids.lemma_filter_contains_rev(p, others[best]);
    ids.lemma_filter_pred(p, best);
    let k = choose|k: int| 0 <= k < ids.len() && ids[k] == others[best];
    assert(k != i && in_layout(infos, ids[k]));
    assert(distance_squared(at, window_centre(infos, ids[k])) == centres_apart(infos, id, ids[k]));
    assert(distance_squared(at, window_centre(infos, ids[j])) == centres_apart(infos, id, ids[j]));
    assert(k == j) by {
        if k < j {
            assert(centres_apart(infos, id, ids[j]) < centres_apart(infos, id, ids[k]));
        } else if j < k {
            if best < jj {
                lemma_filter_order(ids, p, best, jj, k, j);
            } else if best == jj {
                assert(ids[k] == ids[j]);
            }
        }
    }
    lemma_position(ids, id);
    lemma_position(ids, ids[j]);
    assert(ids.contains(ids[j]));
    assert(exchanged(ids, id, ids[j]) == ids.update(i, ids[j]).update(j, ids[i]));
    assert(dropped(ids, id, infos) == exchanged(ids, id, ids[j]));
}

/// A tiled window that is dropped on another monitor leaves its workspace and
/// becomes the last of the workspace shown there; both are laid out.
pub proof fn a_window_dropped_elsewhere_moves_there(
    s: ManagerState,
    infos: Seq<WindowInfo>,
    m: int,
    i: int,
    to: int,
)
    requires
        sound(s),
        monitors_apart(s),
        0 <= m < s.monitor_ws.len(),
        0 <= to < s.monitor_ws.len(),
        m != to,
        0 <= i < s.workspaces[s.monitor_ws[m] as int].windows.len(),
        ({
            let id = s.workspaces[s.monitor_ws[m] as int].windows[i];
            &&& info_of(infos, id) matches Some(w) && !w.floating
            &&& is_nearest(s.monitor_rects, info_of(infos, id)->0.geometry.x as int, to)
        }),
    ensures
        ({
            let from = s.monitor_ws[m];
            let there = s.monitor_ws[to];
            let ids = s.workspaces[from as int].windows;
            let o = moved_outcome(s, ids[i], infos);
            let t = o.state;
            &&& t.workspaces[from as int].windows == ids.remove(i)
            &&& t.workspaces[there as int].windows == s.workspaces[there as int].windows.push(
                ids[i],
            )
            &&& forall|k: int|
                0 <= k < s.workspaces.len() && k != from && k != there ==> (
                #[trigger] t.workspaces[k]) == s.workspaces[k]
            &&& t.monitor_ws == s.monitor_ws
            &&& o.steps.contains(Step::Layout { ws: from, area: s.monitor_rects[m] })
            &&& o.steps.contains(Step::Layout { ws: there, area: s.monitor_rects[to] })
        }),
{
    let from = s.monitor_ws[m];
    let there = s.monitor_ws[to];
    assert(s.monitor_ws[m] < s.workspaces.len());
    assert(s.monitor_ws[to] < s.workspaces.len());
    let ids = s.workspaces[from as int].windows;
    assert(s.workspaces[from as int].sound());
    let id = ids[i];
    assert(ids.contains(id));
    lemma_shown_at(s, id, m, s.monitor_ws.len() as int);
    assert(visible_place(s, id) == Some((from, m)));
    lemma_nearest(s.monitor_rects, info_of(infos, id)->0.geometry.x as int, to);
    lemma_without_place(ids, i);
    assert(!s.workspaces[there as int].windows.contains(id)) by {
        assert(s.workspaces[from as int].windows.contains(id));
    }
    let o = moved_outcome(s, id, infos);
    assert(o.steps[0] == Step::Layout { ws: from, area: s.monitor_rects[m] });
    assert(o.steps[2] == Step::Layout { ws: there, area: s.monitor_rects[to] });
}

/// A floating window stays where it is dropped.
pub proof fn a_floating_window_stays_where_it_is_dropped(
    s: ManagerState,
    infos: Seq<WindowInfo>,
    id: WindowId,
)
    requires
        info_of(infos, id) matches Some(w) && w.floating,
    ensures
        moved_outcome(s, id, infos).state == s,
        moved_outcome(s, id, infos).steps.len() == 0,
{
}

/// A window that is minimised or restored has its workspace laid out again, and
/// keeps its place in the order.
pub proof fn minimising_lays_out_the_workspace(s: ManagerState, id: WindowId, m: int)
    requires
        sound(s),
        monitors_apart(s),
        0 <= m < s.monitor_ws.len(),
        s.workspaces[s.monitor_ws[m] as int].windows.contains(id),
    ensures
        minimize_outcome(s, id).state == s,
        minimize_outcome(s, id).steps.contains(
            Step::Layout { ws: s.monitor_ws[m], area: s.monitor_rects[m] },
        ),
{
    lemma_shown_at(s, id, m, s.monitor_ws.len() as int);
    assert(minimize_outcome(s, id).steps[0] == Step::Layout {
        ws: s.monitor_ws[m],
        area: s.monitor_rects[m],
    });
}

} // verus!
