//! What each event does.

use crate::event::Event;
use crate::geometry::{center_of, centre, centre_fits, dist_sq, distance_fits, distance_squared};
use crate::hotkey::Binding;
use crate::manager::actions::{
    action_outcome, exchange, exchanged, quit_steps, show_all, swap_in_steps,
};
use crate::manager::focus::{focus_window, no_reaction, reacts};
use crate::manager::info::{find_info, info_of, is_tileable, tileable, WindowInfo};
use crate::manager::state::{
    area_at, distances_fit, find_monitor_idx, nearest_monitor, nearest_monitor_is_nearest, rect_at,
    visible_place, ws_holding, Manager, ManagerState, Outcome,
};
use crate::manager::step::Step;
use crate::window::{Rect, WindowId};
use crate::workspace::WorkspaceView;
use vstd::prelude::*;

verus! {

/// What the platform reports along with an event.
pub struct Facts {
    /// Whether the host system has animations enabled.
    pub system_animations: bool,
    /// Usable area of the monitor that the event's window is on.
    pub window_area: Rect,
    /// Usable areas of all monitors, left to right.
    pub monitor_rects: Vec<Rect>,
}

// ── Startup ──────────────────────────────────────────────────────────────────

/// The monitor that a window standing at `x` belongs to.
pub open spec fn monitor_at(s: ManagerState, x: i32) -> int {
    nearest_monitor(s.monitor_rects, x as int, s.monitor_rects.len() as int)
}

/// The monitor that a window standing at `x` belongs to can be found and shows
/// a workspace.
pub open spec fn monitor_found(s: ManagerState, x: i32) -> bool {
    &&& distances_fit(s.monitor_rects, x)
    &&& monitor_at(s, x) < s.monitor_ws.len()
}

/// The first `n` windows put on the workspaces shown where they stand.
pub open spec fn seeded(s: ManagerState, infos: Seq<WindowInfo>, n: int) -> ManagerState
    decreases n,
{
    if n <= 0 {
        s
    } else {
        let before = seeded(s, infos, n - 1);
        let ws = s.monitor_ws[monitor_at(s, infos[n - 1].work_rect.x)] as int;
        before.with_ws(ws, before.workspaces[ws].added(infos[n - 1].id))
    }
}

/// Lay out and paint the workspaces of the first `n` monitors that hold windows.
pub open spec fn seed_steps(s: ManagerState, n: int) -> Seq<Step>
    decreases n,
{
    if n <= 0 {
        seq![]
    } else {
        let ws = s.monitor_ws[n - 1];
        seed_steps(s, n - 1) + (if s.workspaces[ws as int].windows.len() == 0 {
            seq![]
        } else {
            seq![Step::Layout { ws, area: s.monitor_rects[n - 1] }, s.borders(ws)]
        })
    }
}

/// Take in the windows that are there at startup.
pub open spec fn seed_outcome(s: ManagerState, infos: Seq<WindowInfo>) -> Outcome {
    let after = seeded(s, infos, infos.len() as int);
    Outcome {
        state: after,
        steps: seed_steps(after, s.monitor_ws.len() as int).push(Step::Broadcast),
    }
}

/// Every window stands on a monitor that shows a workspace, and every monitor
/// that gets windows has an area.
pub open spec fn seed_ready(s: ManagerState, infos: Seq<WindowInfo>) -> bool {
    &&& forall|i: int|
        0 <= i < infos.len() ==> monitor_found(s, (#[trigger] infos[i]).work_rect.x)
    &&& forall|m: int|
        s.monitor_rects.len() <= m < s.monitor_ws.len() ==> seeded(
            s,
            infos,
            infos.len() as int,
        ).workspaces[(#[trigger] s.monitor_ws[m]) as int].windows.len() == 0
}

// ── Windows that come and go ─────────────────────────────────────────────────

/// A new window joins the workspace shown where it stands.
pub open spec fn created_outcome(s: ManagerState, id: WindowId, x: i32) -> Outcome {
    let mon = monitor_at(s, x);
    let ws = s.monitor_ws[mon];
    let after = s.with_ws(ws as int, s.workspaces[ws as int].added(id));
    Outcome {
        state: after,
        steps: seq![Step::Layout { ws, area: s.monitor_rects[mon] }, after.borders(ws)]
            + after.raise_steps(ws as int) + seq![Step::Broadcast],
    }
}

/// Lay out and paint what the first `n` monitors show, on `areas`.
pub open spec fn relayout_steps(s: ManagerState, areas: Seq<Rect>, n: int, raise: bool) -> Seq<Step>
    decreases n,
{
    if n <= 0 {
        seq![]
    } else {
        let ws = s.monitor_ws[n - 1];
        relayout_steps(s, areas, n - 1, raise) + seq![
            Step::Layout { ws, area: area_at(areas, n - 1, s.current_area()) },
            s.borders(ws),
        ] + (if raise {
            s.raise_steps(ws as int)
        } else {
            seq![]
        })
    }
}

/// Every monitor that shows a workspace has an area.
pub open spec fn areas_known(s: ManagerState, areas: Seq<Rect>) -> bool {
    s.monitor_ws.len() <= areas.len()
}

/// A window is gone: it leaves every workspace.
pub open spec fn destroyed_outcome(s: ManagerState, id: WindowId) -> Outcome {
    let after = ManagerState {
        workspaces: Seq::new(s.workspaces.len(), |i: int| s.workspaces[i].removed(id)),
        ..s
    };
    Outcome {
        state: after,
        steps: relayout_steps(after, s.monitor_rects, s.monitor_ws.len() as int, true).push(
            Step::Broadcast,
        ),
    }
}

// ── Focus ────────────────────────────────────────────────────────────────────

/// A window got the focus from outside.  If its workspace is not shown, the
/// monitor that owns the workspace switches to it.
pub open spec fn focused_outcome(s: ManagerState, id: WindowId, animate: bool) -> Outcome {
    match visible_place(s, id) {
        Some((ws, mon)) => {
            let after = ManagerState { focused_mon: mon as usize, ..s }.focusing(id, ws as int);
            Outcome {
                state: after,
                steps: after.focus_steps(id, ws as int).push(Step::Broadcast),
            }
        },
        None => match ws_holding(s.workspaces, id, s.workspaces.len() as int) {
            Some(to) => {
                let mon = s.owner(to);
                let from = s.monitor_ws[mon];
                let shown = ManagerState {
                    monitor_ws: s.monitor_ws.update(mon, to as usize),
                    focused_mon: mon as usize,
                    ..s
                };
                let area = area_at(s.monitor_rects, mon, s.monitor_rects[0]);
                let focus = focus_window(shown, id, to as usize);
                Outcome {
                    state: focus.state,
                    steps: swap_in_steps(shown, from, to as usize, area, animate)
                        + focus.steps.push(Step::Broadcast),
                }
            },
            None => no_reaction(s),
        },
    }
}

/// A window on a hidden workspace can only be shown if there is a monitor area.
pub open spec fn focus_ready(s: ManagerState, id: WindowId) -> bool {
    visible_place(s, id) is None && ws_holding(s.workspaces, id, s.workspaces.len() as int) is Some
        ==> s.monitor_rects.len() > 0
}

// ── Geometry changes ─────────────────────────────────────────────────────────

/// A window was minimised or restored: its workspace is laid out again.
pub open spec fn minimize_outcome(s: ManagerState, id: WindowId) -> Outcome {
    match visible_place(s, id) {
        Some((ws, mon)) => Outcome {
            state: s,
            steps: seq![Step::Layout { ws, area: s.monitor_rects[mon] }, s.borders(ws)],
        },
        None => no_reaction(s),
    }
}

/// A window was resized: it keeps its size, and only borders are repainted.
pub open spec fn resized_outcome(s: ManagerState, id: WindowId) -> Outcome {
    match visible_place(s, id) {
        Some((ws, mon)) => Outcome { state: s, steps: seq![s.borders(ws)] },
        None => no_reaction(s),
    }
}

/// Which windows a dragged window can change places with.
pub open spec fn is_partner(id: WindowId, infos: Seq<WindowInfo>) -> spec_fn(WindowId) -> bool {
    |other: WindowId| other != id && tileable(infos, other)
}

/// The windows that a dragged window can change places with.
pub open spec fn partners(ids: Seq<WindowId>, id: WindowId, infos: Seq<WindowInfo>) -> Seq<
    WindowId,
> {
    ids.filter(is_partner(id, infos))
}

/// Centre of a known window.
pub open spec fn window_centre(infos: Seq<WindowInfo>, id: WindowId) -> (int, int) {
    centre(info_of(infos, id)->0.geometry)
}

/// Among the first `n` of `ids`, the one whose centre is nearest to `p`; the
/// first such one.
pub open spec fn nearest_window(
    infos: Seq<WindowInfo>,
    ids: Seq<WindowId>,
    p: (int, int),
    n: int,
) -> int
    decreases n,
{
    if n <= 1 {
        0
    } else {
        let best = nearest_window(infos, ids, p, n - 1);
        if distance_squared(p, window_centre(infos, ids[n - 1])) < distance_squared(
            p,
            window_centre(infos, ids[best]),
        ) {
            n - 1
        } else {
            best
        }
    }
}

/// The window order after `id` was dropped on its own monitor: it changes
/// places with the nearest other tile.
pub open spec fn dropped(ids: Seq<WindowId>, id: WindowId, infos: Seq<WindowInfo>) -> Seq<
    WindowId,
> {
    let others = partners(ids, id, infos);
    if others.len() == 0 {
        ids
    } else {
        exchanged(
            ids,
            id,
            others[nearest_window(
                infos,
                others,
                window_centre(infos, id),
                others.len() as int,
            )],
        )
    }
}

/// A tiled window was dragged: onto another monitor, where it joins the
/// workspace shown there, or to another place on its own.
pub open spec fn moved_outcome(s: ManagerState, id: WindowId, infos: Seq<WindowInfo>) -> Outcome {
    match (visible_place(s, id), info_of(infos, id)) {
        (Some((ws, mon)), Some(w)) if !w.floating => {
            let to_mon = monitor_at(s, w.geometry.x);
            if to_mon != mon {
                let to = s.monitor_ws[to_mon];
                let left = s.with_ws(ws as int, s.workspaces[ws as int].removed(id));
                let after = left.with_ws(to as int, left.workspaces[to as int].added(id));
                Outcome {
                    state: after,
                    steps: seq![
                        Step::Layout { ws, area: s.monitor_rects[mon] },
                        after.borders(ws),
                        Step::Layout { ws: to, area: s.monitor_rects[to_mon] },
                        after.borders(to),
                    ],
                }
            } else {
                let v = s.workspaces[ws as int];
                let after = s.with_ws(
                    ws as int,
                    WorkspaceView { windows: dropped(v.windows, id, infos), ..v },
                );
                Outcome {
                    state: after,
                    steps: seq![
                        Step::Layout { ws, area: s.monitor_rects[mon] },
                        after.borders(ws),
                    ],
                }
            }
        },
        _ => no_reaction(s),
    }
}

/// Where a dragged window goes can be computed: the monitors involved have
/// areas, and centres and distances are representable.
pub open spec fn move_ready(s: ManagerState, id: WindowId, infos: Seq<WindowInfo>) -> bool {
    match (visible_place(s, id), info_of(infos, id)) {
        (Some((ws, mon)), Some(w)) if !w.floating => {
            &&& monitor_found(s, w.geometry.x)
            &&& mon < s.monitor_rects.len()
            &&& monitor_at(s, w.geometry.x) == mon ==> {
                let ids = s.workspaces[ws as int].windows;
                &&& centre_fits(w.geometry)
                &&& forall|i: int|
                    0 <= i < ids.len() && (#[trigger] ids[i]) != id && tileable(infos, ids[i])
                        ==> centre_fits(info_of(infos, ids[i])->0.geometry) && distance_fits(
                        centre(w.geometry),
                        window_centre(infos, ids[i]),
                    )
            }
        },
        _ => true,
    }
}

/// The usable areas changed: everything shown is laid out again.
pub open spec fn area_outcome(s: ManagerState, areas: Seq<Rect>) -> Outcome {
    let after = ManagerState { monitor_rects: areas, ..s };
    Outcome {
        state: after,
        steps: relayout_steps(after, areas, s.monitor_ws.len() as int, false).push(Step::Broadcast),
    }
}

/// A keybinding fired: its action is performed, if it has one.
pub open spec fn key_outcome(
    s: ManagerState,
    bindings: Seq<Binding>,
    key: int,
    infos: Seq<WindowInfo>,
    animate: bool,
) -> Outcome {
    if key < bindings.len() {
        action_outcome(s, bindings[key].action, infos, animate)
    } else {
        no_reaction(s)
    }
}

/// What an event does.
pub open spec fn event_outcome(
    s: ManagerState,
    bindings: Seq<Binding>,
    event: Event,
    facts: Facts,
    infos: Seq<WindowInfo>,
) -> Outcome {
    let animate = s.animations && facts.system_animations;
    match event {
        Event::WindowCreated(id) => created_outcome(s, id, facts.window_area.x),
        Event::WindowDestroyed(id) => destroyed_outcome(s, id),
        Event::WindowFocused(id) => focused_outcome(s, id, animate),
        Event::WindowMoved { id } => moved_outcome(s, id, infos),
        Event::WindowResized { id } => resized_outcome(s, id),
        Event::WindowSizeChanged { id } => resized_outcome(s, id),
        Event::WindowMinimizeChanged { id } => minimize_outcome(s, id),
        Event::WorkAreaChanged => area_outcome(s, facts.monitor_rects@),
        Event::Keybinding(key) => key_outcome(s, bindings, key.0 as int, infos, animate),
        Event::Quit => Outcome { state: s, steps: quit_steps(infos) },
    }
}

/// The monitor areas that an event's reaction needs are there, and so is the
/// room for its arithmetic.
pub open spec fn event_ready(
    s: ManagerState,
    event: Event,
    facts: Facts,
    infos: Seq<WindowInfo>,
) -> bool {
    match event {
        Event::WindowCreated(id) => s.monitor_rects.len() > 0 && monitor_found(
            s,
            facts.window_area.x,
        ),
        Event::WindowDestroyed(id) => areas_known(s, s.monitor_rects),
        Event::WindowFocused(id) => focus_ready(s, id),
        Event::WindowMoved { id } => move_ready(s, id, infos),
        Event::WindowMinimizeChanged { id } => visible_place(s, id) matches Some((ws, mon))
            ==> mon < s.monitor_rects.len(),
        Event::WorkAreaChanged => areas_known(s, facts.monitor_rects@),
        _ => true,
    }
}

// ── Reacting ─────────────────────────────────────────────────────────────────

/// The window among `ids` whose centre is nearest to that of `id`, itself left
/// out.
fn nearest_partner(ids: &Vec<WindowId>, id: WindowId, at: Rect, infos: &Vec<WindowInfo>) -> (r:
    Option<WindowId>)
    requires
        info_of(infos@, id) is Some,
        at == info_of(infos@, id)->0.geometry,
        centre_fits(at),
        forall|i: int|
            0 <= i < ids@.len() && (#[trigger] ids@[i]) != id && tileable(infos@, ids@[i])
                ==> centre_fits(info_of(infos@, ids@[i])->0.geometry) && distance_fits(
                centre(at),
                window_centre(infos@, ids@[i]),
            ),
    ensures
        ({
            let others = partners(ids@, id, infos@);
            match r {
                Some(other) => others.len() > 0 && other == others[nearest_window(
                    infos@,
                    others,
                    window_centre(infos@, id),
                    others.len() as int,
                )],
                None => others.len() == 0,
            }
        }),
{
    let p = center_of(at);
    let ghost pp = window_centre(infos@, id);
    let mut best: Option<(WindowId, i64)> = None;
    let mut i: usize = 0;
    proof {
        reveal(Seq::filter);
    }
    while i < ids.len()
        invariant
            i <= ids@.len(),
            at == info_of(infos@, id)->0.geometry,
            p.0 == centre(at).0 && p.1 == centre(at).1,
            pp == window_centre(infos@, id),
            forall|i: int|
                0 <= i < ids@.len() && (#[trigger] ids@[i]) != id && tileable(infos@, ids@[i])
                    ==> centre_fits(info_of(infos@, ids@[i])->0.geometry) && distance_fits(
                    centre(at),
                    window_centre(infos@, ids@[i]),
                ),
            ({
                let others = partners(ids@.take(i as int), id, infos@);
                let at = nearest_window(infos@, others, pp, others.len() as int);
                match best {
                    Some((other, d)) => others.len() > 0 && 0 <= at < others.len() && other
                        == others[at] && d == distance_squared(pp, window_centre(infos@, other)),
                    None => others.len() == 0,
                }
            }),
        decreases ids@.len() - i,
    {
        let other = ids[i];
        let ghost seen = partners(ids@.take(i as int), id, infos@);
        let ghost now = partners(ids@.take(i + 1), id, infos@);
        proof {
            reveal(Seq::filter);
            assert(ids@.take(i + 1).drop_last() =~= ids@.take(i as int));
            assert(ids@.take(i + 1).last() == other);
            assert(ids@[i as int] == other);
            lemma_nearest_same(infos@, seen, seen.push(other), pp, seen.len() as int);
        }
        if other != id && is_tileable(infos, other) {
            assert(now =~= seen.push(other));
            match find_info(infos, other) {
                Some(w) => {
                    let d = dist_sq(p, center_of(w.geometry));
                    match best {
                        Some((_, nearest)) => {
                            if d < nearest {
                                best = Some((other, d));
                            }
                        },
                        None => {
                            best = Some((other, d));
                        },
                    }
                },
                None => {},
            }
        } else {
            assert(now =~= seen);
        }
        i += 1;
    }
    assert(ids@.take(i as int) =~= ids@);
    match best {
        Some((other, _)) => Some(other),
        None => None,
    }
}

proof fn lemma_nearest_same(
    infos: Seq<WindowInfo>,
    a: Seq<WindowId>,
    b: Seq<WindowId>,
    p: (int, int),
    n: int,
)
    requires
        n <= a.len(),
        n <= b.len(),
        forall|i: int| 0 <= i < n ==> a[i] == b[i],
    ensures
        nearest_window(infos, a, p, n) == nearest_window(infos, b, p, n),
        n > 0 ==> 0 <= nearest_window(infos, a, p, n) < n,
    decreases n,
{
    if n > 1 {
        lemma_nearest_same(infos, a, b, p, n - 1);
    }
}

/// The window chosen is nearest: none is nearer, and none before it is as near.
pub proof fn nearest_window_is_nearest(
    infos: Seq<WindowInfo>,
    ids: Seq<WindowId>,
    p: (int, int),
    n: int,
    j: int,
)
    requires
        0 <= j < n <= ids.len(),
    ensures
        ({
            let best = nearest_window(infos, ids, p, n);
            let here = distance_squared(p, window_centre(infos, ids[j]));
            let there = distance_squared(p, window_centre(infos, ids[best]));
            0 <= best < n && there <= here && (j < best ==> there < here)
        }),
    decreases n,
{
    if n > 1 {
        if j < n - 1 {
            nearest_window_is_nearest(infos, ids, p, n - 1, j);
        } else {
            nearest_window_is_nearest(infos, ids, p, n - 1, 0);
        }
    }
}

/// The monitor found is one.
pub proof fn lemma_monitor_at(s: ManagerState, x: i32)
    ensures
        0 <= monitor_at(s, x),
{
    if s.monitor_rects.len() > 0 {
        nearest_monitor_is_nearest(s.monitor_rects, x as int, s.monitor_rects.len() as int, 0);
    }
}

/// Seeding changes only what workspaces hold.
pub proof fn lemma_seeded(s: ManagerState, infos: Seq<WindowInfo>, n: int)
    requires
        s.wf(),
        n <= infos.len(),
        forall|i: int|
            0 <= i < infos.len() ==> monitor_found(s, (#[trigger] infos[i]).work_rect.x),
    ensures
        seeded(s, infos, n) == (ManagerState {
            workspaces: seeded(s, infos, n).workspaces,
            ..s
        }),
        seeded(s, infos, n).workspaces.len() == s.workspaces.len(),
    decreases n,
{
    if n > 0 {
        lemma_seeded(s, infos, n - 1);
        assert(monitor_found(s, infos[n - 1].work_rect.x));
        lemma_monitor_at(s, infos[n - 1].work_rect.x);
    }
}

impl Manager {
    /// Take in the windows that are there at startup, each on the workspace
    /// shown where it stands.
    pub fn seed(&mut self, infos: &Vec<WindowInfo>) -> (r: Vec<Step>)
        requires
            old(self)@.wf(),
            seed_ready(old(self)@, infos@),
        ensures
            reacts(*old(self), *final(self), r@, seed_outcome(old(self)@, infos@)),
            final(self)@.wf(),
    {
        let ghost s = self@;
        let mut i: usize = 0;
        while i < infos.len()
            invariant
                i <= infos@.len(),
                s.wf(),
                seed_ready(s, infos@),
                self@ == seeded(s, infos@, i as int),
                self.config == old(self).config,
                self.bindings == old(self).bindings,
            decreases infos@.len() - i,
        {
            proof {
                lemma_seeded(s, infos@, i as int);
                assert(monitor_found(s, infos@[i as int].work_rect.x));
            }
            let mon = find_monitor_idx(&self.monitor_rects, infos[i].work_rect.x);
            let ws = self.monitor_ws[mon];
            assert(s.monitor_ws[mon as int] < s.workspaces.len());
            self.workspaces[ws].add_window(infos[i].id);
            i += 1;
            assert(self@.workspaces =~= seeded(s, infos@, i as int).workspaces);
        }
        proof {
            lemma_seeded(s, infos@, infos@.len() as int);
        }
        let ghost end = self@;
        let n = self.monitor_ws.len();
        let mut steps: Vec<Step> = Vec::new();
        let mut m: usize = 0;
        while m < n
            invariant
                m <= n,
                n == end.monitor_ws.len(),
                self@ == end,
                end.wf(),
                seed_ready(s, infos@),
                end == seeded(s, infos@, infos@.len() as int),
                end.monitor_ws == s.monitor_ws,
                end.monitor_rects == s.monitor_rects,
                steps@ == seed_steps(end, m as int),
            decreases n - m,
        {
            let ws = self.monitor_ws[m];
            assert(end.monitor_ws[m as int] < end.workspaces.len());
            assert(s.monitor_ws[m as int] == ws);
            if self.workspaces[ws].windows.len() > 0 {
                steps.push(Step::Layout { ws, area: self.monitor_rects[m] });
                steps.push(self.borders(ws));
            }
            m += 1;
            assert(steps@ =~= seed_steps(end, m as int));
        }
        steps.push(Step::Broadcast);
        steps
    }

    /// A new window joins the workspace shown where it stands.
    pub fn window_created(&mut self, id: WindowId, area: Rect) -> (r: Vec<Step>)
        requires
            old(self)@.wf(),
            old(self)@.monitor_rects.len() > 0,
            monitor_found(old(self)@, area.x),
        ensures
            reacts(*old(self), *final(self), r@, created_outcome(old(self)@, id, area.x)),
            final(self)@.wf(),
    {
        let ghost end = created_outcome(self@, id, area.x);
        let mon = find_monitor_idx(&self.monitor_rects, area.x);
        let ws = self.monitor_ws[mon];
        assert(self@.monitor_ws[mon as int] < self@.workspaces.len());
        self.workspaces[ws].add_window(id);
        assert(self@.workspaces =~= end.state.workspaces);
        let mut steps: Vec<Step> = Vec::new();
        steps.push(Step::Layout { ws, area: self.monitor_rects[mon] });
        steps.push(self.borders(ws));
        self.push_raise(&mut steps, ws);
        steps.push(Step::Broadcast);
        assert(steps@ =~= end.steps);
        steps
    }

    /// The steps that lay out and paint everything shown, each workspace on the
    /// area of its monitor.
    pub fn relayout(&self, raise: bool) -> (r: Vec<Step>)
        requires
            self@.wf(),
        ensures
            r@ == relayout_steps(
                self@,
                self@.monitor_rects,
                self@.monitor_ws.len() as int,
                raise,
            ),
    {
        let fallback = self.current_area();
        let n = self.monitor_ws.len();
        let mut steps: Vec<Step> = Vec::new();
        let mut m: usize = 0;
        while m < n
            invariant
                m <= n,
                n == self.monitor_ws@.len(),
                self@.wf(),
                fallback == self@.current_area(),
                steps@ == relayout_steps(self@, self@.monitor_rects, m as int, raise),
            decreases n - m,
        {
            let ws = self.monitor_ws[m];
            assert(self@.monitor_ws[m as int] < self@.workspaces.len());
            steps.push(Step::Layout { ws, area: rect_at(&self.monitor_rects, m, fallback) });
            steps.push(self.borders(ws));
            if raise {
                self.push_raise(&mut steps, ws);
            }
            m += 1;
            assert(steps@ =~= relayout_steps(self@, self@.monitor_rects, m as int, raise));
        }
        steps
    }

    /// A window is gone: it leaves every workspace.
    pub fn window_destroyed(&mut self, id: WindowId) -> (r: Vec<Step>)
        requires
            old(self)@.wf(),
            areas_known(old(self)@, old(self)@.monitor_rects),
        ensures
            reacts(*old(self), *final(self), r@, destroyed_outcome(old(self)@, id)),
            final(self)@.wf(),
    {
        let ghost s = self@;
        let ghost end = destroyed_outcome(s, id);
        let n = self.workspaces.len();
        let mut i: usize = 0;
        while i < n
            invariant
                i <= n,
                n == s.workspaces.len(),
                self@ == (ManagerState { workspaces: self@.workspaces, ..s }),
                self@.workspaces.len() == n,
                self.config == old(self).config,
                self.bindings == old(self).bindings,
                forall|j: int|
                    0 <= j < n ==> (#[trigger] self@.workspaces[j]) == (if j < i {
                        s.workspaces[j].removed(id)
                    } else {
                        s.workspaces[j]
                    }),
            decreases n - i,
        {
            let ghost before = self@;
            assert(before.workspaces[i as int] == s.workspaces[i as int]);
            self.workspaces[i].remove_window(id);
            assert(self@.workspaces =~= before.workspaces.update(
                i as int,
                s.workspaces[i as int].removed(id),
            ));
            i += 1;
        }
        assert(self@.workspaces =~= end.state.workspaces);
        let mut steps = self.relayout(true);
        steps.push(Step::Broadcast);
        steps
    }

    /// A window got the focus from outside.
    pub fn window_focused(&mut self, id: WindowId, animate: bool) -> (r: Vec<Step>)
        requires
            old(self)@.wf(),
            focus_ready(old(self)@, id),
        ensures
            reacts(*old(self), *final(self), r@, focused_outcome(old(self)@, id, animate)),
            final(self)@.wf(),
    {
        let ghost s = self@;
        let ghost end = focused_outcome(s, id, animate);
        match self.find_visible_ws_and_mon(id) {
            Some((ws, mon)) => {
                assert(s.monitor_ws[mon as int] < s.workspaces.len());
                self.focused_mon = mon;
                let mut steps = self.set_global_focus(id, ws);
                steps.push(Step::Broadcast);
                return steps;
            },
            None => {},
        }
        match self.find_any_workspace(id) {
            Some(to) => {
                let mon = self.owner(to);
                let from = self.monitor_ws[mon];
                assert(s.monitor_ws[mon as int] < s.workspaces.len());
                let area = rect_at(&self.monitor_rects, mon, self.monitor_rects[0]);
                self.monitor_ws[mon] = to;
                self.focused_mon = mon;
                assert(self@.monitor_ws =~= s.monitor_ws.update(mon as int, to));
                let mut steps = self.swap_in(from, to, area, animate);
                let ghost head = steps@;
                let mut focus = self.give_focus(id, to);
                focus.push(Step::Broadcast);
                let ghost tail = focus@;
                steps.append(&mut focus);
                assert(steps@ =~= head + tail);
                steps
            },
            None => Vec::new(),
        }
    }

    /// A window was minimised or restored.
    pub fn window_minimize_changed(&self, id: WindowId) -> (r: Vec<Step>)
        requires
            self@.wf(),
            visible_place(self@, id) matches Some((ws, mon)) ==> mon < self@.monitor_rects.len(),
        ensures
            r@ == minimize_outcome(self@, id).steps,
            minimize_outcome(self@, id).state == self@,
    {
        match self.find_visible_ws_and_mon(id) {
            Some((ws, mon)) => {
                assert(self@.monitor_ws[mon as int] < self@.workspaces.len());
                let steps: Vec<Step> = vec![
                    Step::Layout { ws, area: self.monitor_rects[mon] },
                    self.borders(ws),
                ];
                assert(steps@ =~= minimize_outcome(self@, id).steps);
                steps
            },
            None => Vec::new(),
        }
    }

    /// A window was resized, by the user or by its application.
    pub fn window_resized(&self, id: WindowId) -> (r: Vec<Step>)
        requires
            self@.wf(),
        ensures
            r@ == resized_outcome(self@, id).steps,
            resized_outcome(self@, id).state == self@,
    {
        match self.find_visible_ws_and_mon(id) {
            Some((ws, mon)) => {
                assert(self@.monitor_ws[mon as int] < self@.workspaces.len());
                let steps: Vec<Step> = vec![self.borders(ws)];
                assert(steps@ =~= resized_outcome(self@, id).steps);
                steps
            },
            None => Vec::new(),
        }
    }

    /// A window was dragged.
    pub fn window_moved(&mut self, id: WindowId, infos: &Vec<WindowInfo>) -> (r: Vec<Step>)
        requires
            old(self)@.wf(),
            move_ready(old(self)@, id, infos@),
        ensures
            reacts(*old(self), *final(self), r@, moved_outcome(old(self)@, id, infos@)),
            final(self)@.wf(),
    {
        let ghost s = self@;
        let ghost end = moved_outcome(s, id, infos@);
        let (ws, mon) = match self.find_visible_ws_and_mon(id) {
            Some(place) => place,
            None => {
                return Vec::new();
            },
        };
        assert(s.monitor_ws[mon as int] < s.workspaces.len());
        let at = match find_info(infos, id) {
            Some(w) => {
                if w.floating {
                    return Vec::new();
                }
                w.geometry
            },
            None => {
                return Vec::new();
            },
        };
        let to_mon = find_monitor_idx(&self.monitor_rects, at.x);
        let mut steps: Vec<Step> = Vec::new();
        if to_mon != mon {
            let to = self.monitor_ws[to_mon];
            assert(s.monitor_ws[to_mon as int] < s.workspaces.len());
            self.workspaces[ws].remove_window(id);
            let ghost left = s.with_ws(ws as int, s.workspaces[ws as int].removed(id));
            assert(self@.workspaces =~= left.workspaces);
            self.workspaces[to].add_window(id);
            assert(self@.workspaces =~= end.state.workspaces);
            steps.push(Step::Layout { ws, area: self.monitor_rects[mon] });
            steps.push(self.borders(ws));
            steps.push(Step::Layout { ws: to, area: self.monitor_rects[to_mon] });
            steps.push(self.borders(to));
        } else {
            match nearest_partner(&self.workspaces[ws].windows, id, at, infos) {
                Some(other) => {
                    exchange(&mut self.workspaces[ws].windows, id, other);
                },
                None => {},
            }
            assert(self@.workspaces =~= end.state.workspaces);
            steps.push(Step::Layout { ws, area: self.monitor_rects[mon] });
            steps.push(self.borders(ws));
        }
        assert(steps@ =~= end.steps);
        steps
    }

    /// The usable areas of the monitors changed.
    pub fn work_area_changed(&mut self, areas: Vec<Rect>) -> (r: Vec<Step>)
        requires
            old(self)@.wf(),
            areas_known(old(self)@, areas@),
        ensures
            reacts(*old(self), *final(self), r@, area_outcome(old(self)@, areas@)),
            final(self)@.wf(),
    {
        self.monitor_rects = areas;
        let mut steps = self.relayout(false);
        steps.push(Step::Broadcast);
        steps
    }

    /// React to an event.
    pub fn handle(&mut self, event: Event, facts: Facts, infos: &Vec<WindowInfo>) -> (r: Vec<Step>)
        requires
            old(self)@.wf(),
            event_ready(old(self)@, event, facts, infos@),
        ensures
            reacts(
                *old(self),
                *final(self),
                r@,
                event_outcome(old(self)@, old(self).bindings@, event, facts, infos@),
            ),
            final(self)@.wf(),
    {
        let animate = self.config.animations.enabled && facts.system_animations;
        match event {
            Event::WindowCreated(id) => self.window_created(id, facts.window_area),
            Event::WindowDestroyed(id) => self.window_destroyed(id),
            Event::WindowFocused(id) => self.window_focused(id, animate),
            Event::WindowMoved { id } => self.window_moved(id, infos),
            Event::WindowResized { id } => self.window_resized(id),
            Event::WindowSizeChanged { id } => self.window_resized(id),
            Event::WindowMinimizeChanged { id } => self.window_minimize_changed(id),
            Event::WorkAreaChanged => self.work_area_changed(facts.monitor_rects),
            Event::Keybinding(key) => {
                let action = match self.bindings.action(key) {
                    Some(action) => *action,
                    None => {
                        return Vec::new();
                    },
                };
                self.dispatch(action, infos, facts.system_animations)
            },
            Event::Quit => show_all(infos),
        }
    }
}

} // verus!
