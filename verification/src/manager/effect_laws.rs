//! What each action is for: what the user sees of it.

use crate::config::TaskbarMode;
use crate::layout::LayoutKind;
use crate::manager::action_laws::monitors_apart;
use crate::manager::actions::{
    cross_outcome, float_outcome, fullscreen_outcome, kill_outcome, monitor_of, send_outcome,
    set_layout_outcome, switch_outcome,
};
use crate::manager::events::{created_outcome, lemma_monitor_at, monitor_at, monitor_found};
use crate::manager::focus::{active_windows, first_active, focus_window, settle_outcome};
use crate::manager::info::{info_of, WindowInfo};
use crate::manager::laws::{lemma_current, lemma_owner, sound};
use crate::manager::order_laws::{awake, lemma_first_awake, lemma_without_place, none_awake};
use crate::manager::plan::is_full_command;
use crate::manager::state::ManagerState;
use crate::manager::step::{Command, Step};
use crate::window::WindowId;
use crate::workspace::WorkspaceView;
use vstd::prelude::*;

verus! {

// ── Settling the focus ───────────────────────────────────────────────────────

/// `id` is the one window that is told to take the focus.
pub open spec fn focuses_only(steps: Seq<Step>, id: WindowId) -> bool {
    &&& steps.contains(Step::Do(Command::Focus { id }))
    &&& forall|i: int|
        0 <= i < steps.len() ==> (#[trigger] steps[i] matches Step::Do(Command::Focus { id: x })
            ==> x == id)
}

proof fn lemma_focus_steps(s: ManagerState, id: WindowId, ws: usize)
    requires
        s.wf(),
        s.visible(ws as int),
    ensures
        ({
            let o = focus_window(s, id, ws);
            &&& o.state.workspaces[ws as int].focused == Some(id)
            &&& focuses_only(o.steps, id)
            &&& focuses_only(o.steps.push(Step::Broadcast), id)
        }),
{
    let o = focus_window(s, id, ws);
    let m = choose|m: int| 0 <= m < s.monitor_ws.len() && #[trigger] s.monitor_ws[m] == ws;
    assert(s.monitor_ws[m] < s.workspaces.len());
    let t = o.state;
    let n = o.steps.len() as int;
    assert(o.steps[n - 1] == Step::Do(Command::Focus { id }));
    assert(o.steps.push(Step::Broadcast)[n - 1] == Step::Do(Command::Focus { id }));
    assert forall|i: int| 0 <= i < n - 1 implies !(#[trigger] o.steps[i] matches Step::Do(
        Command::Focus { .. },
    )) by {
        if i < t.monitor_ws.len() {
            assert(o.steps[i] == t.borders(t.monitor_ws[i]));
        }
    }
}

/// A workspace that had a focused window when it was left gives it the focus
/// back, whichever window stands first.
pub proof fn settling_gives_the_focus_back(
    s: ManagerState,
    infos: Seq<WindowInfo>,
    ws: usize,
    id: WindowId,
)
    requires
        s.wf(),
        s.visible(ws as int),
        s.workspaces[ws as int].focused == Some(id),
    ensures
        settle_outcome(s, infos, ws).state.workspaces[ws as int].focused == Some(id),
        focuses_only(settle_outcome(s, infos, ws).steps, id),
{
    let w = s.workspaces[ws as int];
    let m = choose|m: int| 0 <= m < s.monitor_ws.len() && #[trigger] s.monitor_ws[m] == ws;
    assert(s.monitor_ws[m] < s.workspaces.len());
    let settled = s.with_ws(ws as int, WorkspaceView { focused: Some(id), ..w });
    assert(settled.monitor_ws[m] == ws);
    assert(settled.wf());
    lemma_focus_steps(settled, id, ws);
}

/// A workspace without a focused window gives the focus to its first window
/// that is not minimised.
pub proof fn settling_picks_the_first_window(
    s: ManagerState,
    infos: Seq<WindowInfo>,
    ws: usize,
    k: int,
)
    requires
        s.wf(),
        s.visible(ws as int),
        s.workspaces[ws as int].focused is None,
        0 <= k < s.workspaces[ws as int].windows.len(),
        awake(infos, s.workspaces[ws as int].windows[k]),
        none_awake(s.workspaces[ws as int].windows, infos, 0, k),
    ensures
        ({
            let id = s.workspaces[ws as int].windows[k];
            &&& settle_outcome(s, infos, ws).state.workspaces[ws as int].focused == Some(id)
            &&& focuses_only(settle_outcome(s, infos, ws).steps, id)
        }),
{
    let w = s.workspaces[ws as int];
    let id = w.windows[k];
    lemma_first_awake(w.windows, infos, k);
    let m = choose|m: int| 0 <= m < s.monitor_ws.len() && #[trigger] s.monitor_ws[m] == ws;
    assert(s.monitor_ws[m] < s.workspaces.len());
    let settled = s.with_ws(ws as int, WorkspaceView { focused: Some(id), ..w });
    assert(settled.monitor_ws[m] == ws);
    assert(settled.wf());
    assert(first_active(w.windows, infos) == Some(id));
    lemma_focus_steps(settled, id, ws);
}

/// A workspace with neither a focused window nor any that is not minimised
/// focuses nothing and stays as it is.
pub proof fn settling_an_idle_workspace_focuses_nothing(
    s: ManagerState,
    infos: Seq<WindowInfo>,
    ws: usize,
)
    requires
        s.wf(),
        ws < s.workspaces.len(),
        s.workspaces[ws as int].focused is None,
        none_awake(
            s.workspaces[ws as int].windows,
            infos,
            0,
            s.workspaces[ws as int].windows.len() as int,
        ),
    ensures
        settle_outcome(s, infos, ws).state == s,
        settle_outcome(s, infos, ws).steps == seq![Step::Broadcast],
{
    let w = s.workspaces[ws as int];
    let shown = active_windows(w.windows, infos);
    crate::manager::order_laws::lemma_none_awake(w.windows, infos);
    assert(settle_outcome(s, infos, ws).state.workspaces =~= s.workspaces);
}

// ── Switching ────────────────────────────────────────────────────────────────

/// A switch ends with settling the focus of the workspace that it shows, and
/// makes that one the current workspace.
pub proof fn switching_enters_the_workspace(s: ManagerState, n: u8, animate: bool)
    requires
        s.wf(),
        1 <= n <= s.workspaces.len(),
        s.monitor_ws[s.owner(n - 1)] != n - 1,
    ensures
        ({
            let o = switch_outcome(s, n, animate);
            &&& o.state.current() == n - 1
            &&& o.state.focused_mon == s.owner(n - 1)
            &&& o.steps.last() == Step::SettleFocus { ws: (n - 1) as usize }
        }),
{
    lemma_owner(s, n - 1);
}

/// Switching to the workspace that its monitor shows already, or to one that
/// does not exist, does nothing.
pub proof fn switching_to_what_is_shown_does_nothing(s: ManagerState, n: u8, animate: bool)
    requires
        s.wf(),
        n >= 1,
        n > s.workspaces.len() || s.monitor_ws[s.owner(n - 1)] == n - 1,
    ensures
        switch_outcome(s, n, animate).state == s,
        switch_outcome(s, n, animate).steps.len() == 0,
{
}

/// Switching from one workspace of a monitor to another and back gives the focus
/// back to the window that had it, and everything is shown where it was.
pub proof fn switching_back_gives_the_focus_back(
    s: ManagerState,
    n: u8,
    back: u8,
    there: Seq<WindowInfo>,
    here: Seq<WindowInfo>,
    animate: bool,
    id: WindowId,
)
    requires
        s.wf(),
        monitors_apart(s),
        1 <= n <= s.workspaces.len(),
        1 <= back <= s.workspaces.len(),
        s.current() == back - 1,
        !s.visible(n - 1),
        s.owner(n - 1) == s.focused_mon,
        s.owner(back - 1) == s.focused_mon,
        s.focused_window() == Some(id),
    ensures
        ({
            let a = switch_outcome(s, n, animate).state;
            let b = settle_outcome(a, there, (n - 1) as usize).state;
            let c = switch_outcome(b, back, animate).state;
            let o = settle_outcome(c, here, (back - 1) as usize);
            &&& o.state.monitor_ws == s.monitor_ws
            &&& o.state.focused_mon == s.focused_mon
            &&& o.state.focused_window() == Some(id)
            &&& focuses_only(o.steps, id)
        }),
{
    lemma_current(s);
    let to = (n - 1) as usize;
    let from = (back - 1) as usize;
    let mon = s.focused_mon as int;
    assert(s.visible(from as int)) by {
        assert(s.monitor_ws[mon] == from);
    }
    let a = switch_outcome(s, n, animate).state;
    assert(a.monitor_ws == s.monitor_ws.update(mon, to));
    assert(a.workspaces == s.workspaces);
    assert(!a.visible(from as int)) by {
        if a.visible(from as int) {
            let m = choose|m: int|
                0 <= m < a.monitor_ws.len() && #[trigger] a.monitor_ws[m] == from;
            assert(m != mon);
            assert(s.monitor_ws[m] == s.monitor_ws[mon]);
        }
    }
    let b = settle_outcome(a, there, to).state;
    assert(b.monitor_ws == a.monitor_ws);
    assert(b.workspaces[from as int].focused == Some(id));
    assert(b.owner(from as int) == mon);
    assert(b.monitor_ws[mon] == to);
    let c = switch_outcome(b, back, animate).state;
    assert(c.monitor_ws =~= s.monitor_ws);
    assert(c.monitor_ws[mon] == from);
    assert(c.wf()) by {
        assert(c.workspaces.len() == s.workspaces.len());
        assert(c.ws_per_mon == s.ws_per_mon);
    }
    settling_gives_the_focus_back(c, here, from, id);
    let o = settle_outcome(c, here, from);
    assert(o.state.monitor_ws == c.monitor_ws);
    assert(o.state.focused_mon == c.focused_mon);
}

// ── Fullscreen ───────────────────────────────────────────────────────────────

/// A window that enters fullscreen covers its whole monitor, taskbar included:
/// it gets the full bounds of the monitor and no other place, just as laying out
/// its workspace afterwards gives it.  It is raised above the others first, an
/// animation leads from where it was to there, and where it was is saved.
pub proof fn entering_fullscreen_covers_the_monitor(
    s: ManagerState,
    infos: Seq<WindowInfo>,
    animate: bool,
    w: WindowInfo,
)
    requires
        s.wf(),
        s.focused_window() == Some(w.id),
        !s.current_ws().is_full(w.id),
        info_of(infos, w.id) == Some(w),
    ensures
        ({
            let o = fullscreen_outcome(s, infos, animate);
            let cover = Command::EnterFullscreen { id: w.id, rect: w.full_rect };
            &&& o.steps[0] == Step::Do(Command::SetTopmost { id: w.id, topmost: true })
            &&& o.steps.contains(Step::Do(cover))
            &&& forall|i: int|
                0 <= i < o.steps.len() ==> match #[trigger] o.steps[i] {
                    Step::Do(Command::EnterFullscreen { id, rect }) => id == w.id && rect
                        == w.full_rect,
                    Step::Do(Command::SetGeometry { .. }) => false,
                    Step::Slide { id, from, to } => animate && id == w.id && from == w.geometry
                        && to == w.full_rect,
                    Step::Layout { .. } => false,
                    Step::AnimatedLayout { .. } => false,
                    _ => true,
                }
            &&& is_full_command(o.state.current_ws(), infos, cover)
            &&& o.state.current_ws().is_full(w.id)
            &&& o.state.current_ws().fullscreen[w.id.0] == w.geometry
        }),
{
    lemma_current(s);
    let o = fullscreen_outcome(s, infos, animate);
    let k: int = if animate && w.geometry != w.full_rect {
        2
    } else {
        1
    };
    assert(o.steps[k] == Step::Do(
        Command::EnterFullscreen { id: w.id, rect: w.full_rect },
    ));
    assert(o.steps.len() == k + 3);
}

/// Leaving fullscreen ends it for that window alone, and takes it down from
/// above the others unless it floats.
pub proof fn leaving_fullscreen_takes_the_window_down(
    s: ManagerState,
    infos: Seq<WindowInfo>,
    animate: bool,
    w: WindowInfo,
)
    requires
        s.wf(),
        s.focused_window() == Some(w.id),
        s.current_ws().is_full(w.id),
        info_of(infos, w.id) == Some(w),
    ensures
        ({
            let o = fullscreen_outcome(s, infos, animate);
            let t = o.state.current_ws();
            &&& o.steps[0] == Step::Do(Command::SetTopmost { id: w.id, topmost: w.floating })
            &&& !t.is_full(w.id)
            &&& forall|x: WindowId| x != w.id ==> #[trigger] t.is_full(x) == s.current_ws().is_full(
                x,
            )
            &&& t.windows == s.current_ws().windows
        }),
{
    lemma_current(s);
}

// ── One window ───────────────────────────────────────────────────────────────

/// Killing closes the focused window, and no other, and changes nothing before
/// the window is gone.
pub proof fn killing_closes_the_focused_window(s: ManagerState)
    ensures
        kill_outcome(s).state == s,
        forall|c: Command| #[trigger]
            kill_outcome(s).steps.contains(Step::Do(c)) <==> (s.focused_window() is Some && c
                == Command::Close { id: s.focused_window()->0 }),
{
    let steps = kill_outcome(s).steps;
    if s.focused_window() is Some {
        assert(steps[0] == Step::Do(Command::Close { id: s.focused_window()->0 }));
    }
}

/// Toggling makes a tiled window float and a floating one tiled, then lays out
/// its workspace.
pub proof fn toggling_float_turns_it_over(s: ManagerState, infos: Seq<WindowInfo>, w: WindowInfo)
    requires
        s.wf(),
        s.focused_window() == Some(w.id),
        info_of(infos, w.id) == Some(w),
    ensures
        ({
            let o = float_outcome(s, infos);
            &&& o.state == s
            &&& o.steps[0] == Step::Do(
                Command::SetFloating { id: w.id, floating: !w.floating },
            )
            &&& o.steps[1] == Step::Layout { ws: s.current(), area: s.current_area() }
            &&& o.steps.last() == Step::Broadcast
        }),
{
}

/// Setting a layout changes the layout of the current workspace and nothing
/// else, and lays that workspace out.
pub proof fn setting_a_layout_changes_only_it(s: ManagerState, kind: LayoutKind)
    requires
        s.wf(),
    ensures
        ({
            let o = set_layout_outcome(s, kind);
            let t = o.state;
            &&& t.current_ws().layout == kind
            &&& t.current_ws() == (WorkspaceView { layout: kind, ..s.current_ws() })
            &&& t.monitor_ws == s.monitor_ws && t.focused_mon == s.focused_mon
            &&& t.workspaces.len() == s.workspaces.len()
            &&& forall|i: int|
                0 <= i < s.workspaces.len() && i != s.current() ==> #[trigger] t.workspaces[i]
                    == s.workspaces[i]
            &&& o.steps[0] == Step::Layout { ws: s.current(), area: s.current_area() }
            &&& o.steps.last() == Step::Broadcast
        }),
{
    lemma_current(s);
}

// ── Sending a window to another workspace ────────────────────────────────────

/// The window sent becomes the last of the other workspace and leaves the order
/// of its own; its own workspace focuses its last window, the other one keeps
/// its focus or focuses the newcomer.  Where the other workspace is not shown,
/// the window leaves the screen the way the taskbar mode asks for; where it is,
/// it stays and the workspace is laid out.
pub proof fn sending_appends_the_window(s: ManagerState, n: u8, i: int)
    requires
        sound(s),
        1 <= n <= s.workspaces.len(),
        s.current() != n - 1,
        0 <= i < s.current_ws().windows.len(),
        s.focused_window() == Some(s.current_ws().windows[i]),
    ensures
        ({
            let id = s.current_ws().windows[i];
            let from = s.current() as int;
            let to = n - 1;
            let o = send_outcome(s, n);
            let t = o.state;
            let kept = s.current_ws().windows.remove(i);
            let there = s.workspaces[to];
            &&& t.workspaces[from].windows == kept
            &&& t.workspaces[from].focused == (if kept.len() == 0 {
                None
            } else {
                Some(kept.last())
            })
            &&& t.workspaces[to].windows == there.windows.push(id)
            &&& t.workspaces[to].focused == (if there.focused is None {
                Some(id)
            } else {
                there.focused
            })
            &&& forall|k: int|
                0 <= k < s.workspaces.len() && k != from && k != to ==> #[trigger] t.workspaces[k]
                    == s.workspaces[k]
            &&& !s.visible(to) ==> o.steps[0] == Step::Do(
                match s.taskbar {
                    TaskbarMode::Global => Command::Park { id },
                    TaskbarMode::Local => Command::Hide { id },
                },
            )
            &&& s.visible(to) ==> forall|k: int|
                0 <= k < o.steps.len() ==> !(#[trigger] o.steps[k] is Do)
        }),
{
    lemma_current(s);
    let id = s.current_ws().windows[i];
    let from = s.current() as int;
    let to = n - 1;
    assert(s.workspaces[from].sound());
    lemma_without_place(s.current_ws().windows, i);
    let left = s.with_ws(from, s.current_ws().removed(id));
    assert(left.workspaces[to] == s.workspaces[to]);
    assert(!s.workspaces[to].windows.contains(id)) by {
        assert(s.workspaces[from].windows.contains(id));
    }
    lemma_monitor_of(s.monitor_ws, to, s.monitor_ws.len() as int);
}

proof fn lemma_monitor_of(monitor_ws: Seq<usize>, ws: int, n: int)
    requires
        0 <= n <= monitor_ws.len(),
    ensures
        match monitor_of(monitor_ws, ws, n) {
            Some(m) => 0 <= m < n && monitor_ws[m] == ws,
            None => forall|m: int| 0 <= m < n ==> #[trigger] monitor_ws[m] != ws,
        },
    decreases n,
{
    if n > 0 {
        lemma_monitor_of(monitor_ws, ws, n - 1);
    }
}

/// A window sent to a workspace that some monitor shows is laid out there: the
/// workspace is laid out on the area of that monitor, and so is its old one.
pub proof fn sending_lays_out_what_is_shown(s: ManagerState, n: u8, m: int)
    requires
        sound(s),
        monitors_apart(s),
        s.monitor_rects.len() == s.monitor_ws.len(),
        1 <= n <= s.workspaces.len(),
        s.current() != n - 1,
        s.focused_window() is Some,
        0 <= m < s.monitor_ws.len(),
        s.monitor_ws[m] == n - 1,
    ensures
        send_outcome(s, n).steps.contains(
            Step::Layout { ws: (n - 1) as usize, area: s.monitor_rects[m] },
        ),
        send_outcome(s, n).steps.contains(
            Step::Layout { ws: s.current(), area: s.current_area() },
        ),
{
    let k = s.monitor_ws.len() as int;
    lemma_monitor_of(s.monitor_ws, n - 1, k);
    let found = monitor_of(s.monitor_ws, n - 1, k);
    assert(found == Some(m)) by {
        if found is None {
            assert(s.monitor_ws[m] != n - 1);
        } else {
            assert(s.monitor_ws[found->0] == s.monitor_ws[m]);
        }
    }
    let steps = send_outcome(s, n).steps;
    assert(steps[0] == Step::Layout { ws: s.current(), area: s.current_area() });
    assert(steps[2] == Step::Layout { ws: (n - 1) as usize, area: s.monitor_rects[m] });
}

/// Windows that leave the screen with their workspace are parked where all
/// windows are to stay in the taskbar, and hidden where each workspace is to have
/// a taskbar of its own; those that come are shown.
pub proof fn switching_parks_or_hides(
    s: ManagerState,
    n: u8,
    animate: bool,
    gone: WindowId,
    come: WindowId,
)
    requires
        s.wf(),
        1 <= n <= s.workspaces.len(),
        s.monitor_ws[s.owner(n - 1)] != n - 1,
        s.workspaces[s.monitor_ws[s.owner(n - 1)] as int].windows.contains(gone),
        s.workspaces[n - 1].windows.contains(come),
    ensures
        ({
            let steps = switch_outcome(s, n, animate).steps;
            &&& s.taskbar is Global ==> steps.contains(Step::Do(Command::Park { id: gone }))
            &&& s.taskbar is Local ==> steps.contains(Step::Do(Command::Hide { id: gone }))
            &&& steps.contains(Step::Do(Command::Show { id: come }))
            &&& forall|i: int|
                0 <= i < steps.len() ==> match #[trigger] steps[i] {
                    Step::Do(Command::Park { .. }) => s.taskbar is Global,
                    Step::Do(Command::Hide { .. }) => s.taskbar is Local,
                    _ => true,
                }
        }),
{
    lemma_owner(s, n - 1);
    let from = s.monitor_ws[s.owner(n - 1)];
    let out = s.workspaces[from as int].windows;
    let into = s.workspaces[n - 1].windows;
    let steps = switch_outcome(s, n, animate).steps;
    let a = into.len() as int;
    let kc = choose|k: int| 0 <= k < into.len() && into[k] == come;
    let kg = choose|k: int| 0 <= k < out.len() && out[k] == gone;
    if animate {
        assert(steps[a + kc] == Step::Do(Command::Show { id: come }));
        assert(steps[a + a + 3 + kg] == Step::Do(
            match s.taskbar {
                TaskbarMode::Global => Command::Park { id: gone },
                TaskbarMode::Local => Command::Hide { id: gone },
            },
        ));
    } else {
        assert(steps[kc] == Step::Do(Command::Show { id: come }));
        assert(steps[a + 2 + kg] == Step::Do(
            match s.taskbar {
                TaskbarMode::Global => Command::Park { id: gone },
                TaskbarMode::Local => Command::Hide { id: gone },
            },
        ));
    }
}

// ── Monocle ──────────────────────────────────────────────────────────────────

/// In a monocle layout the focused window is brought to the top when a window
/// joins and when the layout is set; in other layouts nothing is raised.
pub proof fn monocle_keeps_the_focused_window_on_top(
    s: ManagerState,
    id: WindowId,
    x: i32,
    kind: LayoutKind,
)
    requires
        s.wf(),
        monitor_found(s, x),
    ensures
        ({
            let o = created_outcome(s, id, x);
            let ws = s.monitor_ws[monitor_at(s, x)] as int;
            let t = o.state.workspaces[ws];
            t.focused matches Some(f) ==> (o.steps.contains(Step::Do(Command::Raise { id: f }))
                <==> s.workspaces[ws].layout is Monocle)
        }),
        ({
            let o = set_layout_outcome(s, kind);
            s.focused_window() matches Some(f) ==> (o.steps.contains(
                Step::Do(Command::Raise { id: f }),
            ) <==> kind is Monocle)
        }),
{
    lemma_current(s);
    lemma_monitor_at(s, x);
    let ws = s.monitor_ws[monitor_at(s, x)];
    assert(s.monitor_ws[monitor_at(s, x)] < s.workspaces.len());
    let o = created_outcome(s, id, x);
    let t = o.state.workspaces[ws as int];
    assert(t.layout == s.workspaces[ws as int].layout);
    if let Some(f) = t.focused {
        if t.layout is Monocle {
            assert(o.steps[2] == Step::Do(Command::Raise { id: f }));
        } else {
            assert(o.steps.len() == 3);
        }
    }
    let p = set_layout_outcome(s, kind);
    if let Some(f) = s.focused_window() {
        if kind is Monocle {
            assert(p.steps[2] == Step::Do(Command::Raise { id: f }));
        } else {
            assert(p.steps.len() == 3);
        }
    }
}

// ── Crossing, in steps ───────────────────────────────────────────────────────

/// A window that crosses to a neighbouring monitor has both workspaces laid out,
/// each on the area of its own monitor: in one animation, or at once.
pub proof fn crossing_lays_out_both(
    s: ManagerState,
    id: WindowId,
    neighbour: usize,
    forward: bool,
    animate: bool,
)
    requires
        s.wf(),
        s.monitor_rects.len() == s.monitor_ws.len(),
        neighbour < s.monitor_ws.len(),
    ensures
        ({
            let steps = cross_outcome(s, id, neighbour, forward, animate).steps;
            let first = s.current();
            let second = s.monitor_ws[neighbour as int];
            let first_area = s.monitor_rects[s.focused_mon as int];
            let second_area = s.monitor_rects[neighbour as int];
            &&& animate ==> steps[0] == Step::AnimatedPair { first, first_area, second, second_area }
            &&& !animate ==> steps[0] == Step::Layout { ws: first, area: first_area } && steps[1]
                == Step::Layout { ws: second, area: second_area }
        }),
{
}

} // verus!
