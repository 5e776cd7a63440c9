//! Workspaces, monitors and focus.

use crate::config::{Config, TaskbarMode, WorkspaceConfig};
use crate::hotkey::BindingMap;
use crate::layout::LayoutKind;
use crate::manager::step::{Command, Step};
use crate::window::{Rect, WindowId};
use crate::workspace::{Workspace, WorkspaceView};
use vstd::prelude::*;
use vstd::string::*;

verus! {

/// The window manager's state.
pub struct Manager {
    pub workspaces: Vec<Workspace>,
    /// Index of the workspace that each monitor shows.
    pub monitor_ws: Vec<usize>,
    /// The monitor that keyboard commands apply to.
    pub focused_mon: usize,
    /// How many consecutive workspaces each monitor owns.
    pub ws_per_mon: usize,
    /// Usable areas of the monitors, left to right.
    pub monitor_rects: Vec<Rect>,
    pub config: Config,
    pub bindings: BindingMap,
}

/// What a [`Manager`] holds.
pub struct ManagerState {
    pub workspaces: Seq<WorkspaceView>,
    pub monitor_ws: Seq<usize>,
    pub focused_mon: usize,
    pub ws_per_mon: usize,
    pub monitor_rects: Seq<Rect>,
    /// Whether the configuration allows animations.
    pub animations: bool,
    pub taskbar: TaskbarMode,
}

/// A reaction to an event: the state afterwards and the steps to perform.
pub struct Outcome {
    pub state: ManagerState,
    pub steps: Seq<Step>,
}

/// What a list of workspaces holds.
pub open spec fn workspace_views(workspaces: Seq<Workspace>) -> Seq<WorkspaceView> {
    Seq::new(workspaces.len(), |i: int| workspaces[i]@)
}

impl View for Manager {
    type V = ManagerState;

    open spec fn view(&self) -> ManagerState {
        ManagerState {
            workspaces: workspace_views(self.workspaces@),
            monitor_ws: self.monitor_ws@,
            focused_mon: self.focused_mon,
            ws_per_mon: self.ws_per_mon,
            monitor_rects: self.monitor_rects@,
            animations: self.config.animations.enabled,
            taskbar: self.config.taskbar_mode,
        }
    }
}

impl ManagerState {
    /// Every monitor shows a workspace, one monitor is focused, and the shares
    /// of the monitors can be numbered.
    pub open spec fn wf(self) -> bool {
        &&& self.workspaces.len() >= 1
        &&& self.workspaces.len() <= usize::MAX
        &&& self.monitor_ws.len() >= 1
        &&& forall|m: int|
            0 <= m < self.monitor_ws.len() ==> (#[trigger] self.monitor_ws[m])
                < self.workspaces.len()
        &&& self.focused_mon < self.monitor_ws.len()
        &&& self.ws_per_mon >= 1
        &&& self.monitor_ws.len() * self.ws_per_mon <= usize::MAX
    }

    /// Index of the workspace on the focused monitor.
    pub open spec fn current(self) -> usize {
        self.monitor_ws[self.focused_mon as int]
    }

    /// The workspace on the focused monitor.
    pub open spec fn current_ws(self) -> WorkspaceView {
        self.workspaces[self.current() as int]
    }

    /// The window with the keyboard focus on the focused monitor.
    pub open spec fn focused_window(self) -> Option<WindowId> {
        self.current_ws().focused
    }

    /// The state with one workspace replaced.
    pub open spec fn with_ws(self, i: int, w: WorkspaceView) -> ManagerState {
        ManagerState { workspaces: self.workspaces.update(i, w), ..self }
    }

    /// The monitor that owns a workspace.
    pub open spec fn owner(self, ws: int) -> int {
        let share = ws / self.ws_per_mon as int;
        if share < self.monitor_ws.len() {
            share
        } else {
            self.monitor_ws.len() - 1
        }
    }

    /// The usable area for the workspace on the focused monitor.
    pub open spec fn current_area(self) -> Rect {
        area_of_ws(self.current() as int, self.ws_per_mon as int, self.monitor_rects)
    }

    /// Some monitor shows workspace `i`.
    pub open spec fn visible(self, i: int) -> bool {
        exists|m: int| 0 <= m < self.monitor_ws.len() && #[trigger] self.monitor_ws[m] == i
    }

    /// The state in which `id` has the focus of workspace `ws` and no other
    /// visible workspace has one.
    pub open spec fn focusing(self, id: WindowId, ws: int) -> ManagerState {
        ManagerState {
            workspaces: Seq::new(
                self.workspaces.len(),
                |i: int|
                    if self.visible(i) {
                        WorkspaceView {
                            focused: if i == ws {
                                Some(id)
                            } else {
                                None
                            },
                            ..self.workspaces[i]
                        }
                    } else {
                        self.workspaces[i]
                    },
            ),
            ..self
        }
    }

    /// Repaint workspace `ws` with its present focus.
    pub open spec fn borders(self, ws: usize) -> Step {
        Step::Borders { ws, focused: self.workspaces[ws as int].focused }
    }

    /// Repaint every visible workspace, and bring the focused window of a
    /// monocle workspace to the top.
    pub open spec fn focus_steps(self, id: WindowId, ws: int) -> Seq<Step> {
        Seq::new(self.monitor_ws.len(), |m: int| self.borders(self.monitor_ws[m])) + (
        if self.workspaces[ws].layout == LayoutKind::Monocle {
            seq![Step::Do(Command::Raise { id })]
        } else {
            seq![]
        })
    }
}

/// Element `i` of a list of areas, or `default` beyond its end.
pub open spec fn area_at(rects: Seq<Rect>, i: int, default: Rect) -> Rect {
    if 0 <= i < rects.len() {
        rects[i]
    } else {
        default
    }
}

/// The area of the monitor that owns workspace `ws`, or a 1920 by 1080 screen
/// when there is none.
pub open spec fn area_of_ws(ws: int, ws_per_mon: int, rects: Seq<Rect>) -> Rect {
    let share = ws / ws_per_mon;
    if rects.len() == 0 {
        Rect { x: 0, y: 0, width: 1920, height: 1080 }
    } else if share < rects.len() {
        rects[share]
    } else {
        rects.last()
    }
}

/// The share of each of `monitors` when `workspaces` are divided evenly,
/// rounding up.
pub open spec fn even_share(workspaces: int, monitors: int) -> int {
    (workspaces + monitors - 1) / monitors
}

/// The workspace that monitor `m` shows first.
pub open spec fn first_ws(m: int, share: int, workspaces: int) -> int {
    if m * share < workspaces {
        m * share
    } else {
        workspaces - 1
    }
}

/// The state at startup, before any window is known.
pub open spec fn initial_state(
    names: Seq<Seq<char>>,
    layout: LayoutKind,
    rects: Seq<Rect>,
    animations: bool,
    taskbar: TaskbarMode,
) -> ManagerState {
    let monitors = if rects.len() == 0 {
        1
    } else {
        rects.len() as int
    };
    let share = even_share(names.len() as int, monitors);
    ManagerState {
        workspaces: Seq::new(
            names.len(),
            |i: int|
                WorkspaceView {
                    name: names[i],
                    layout,
                    windows: seq![],
                    focused: None,
                    fullscreen: Map::empty(),
                },
        ),
        monitor_ws: Seq::new(
            monitors as nat,
            |m: int| first_ws(m, share, names.len() as int) as usize,
        ),
        focused_mon: 0,
        ws_per_mon: share as usize,
        monitor_rects: rects,
        animations,
        taskbar,
    }
}

/// The names of the configured workspaces.
pub open spec fn workspace_names(configs: Seq<WorkspaceConfig>) -> Seq<Seq<char>> {
    Seq::new(configs.len(), |i: int| configs[i].name@)
}

// ── Lookups ──────────────────────────────────────────────────────────────────

/// The usable area of the monitor that owns a workspace.
pub fn ws_monitor_rect(ws_idx: usize, ws_per_mon: usize, monitor_rects: &Vec<Rect>) -> (r: Rect)
    requires
        ws_per_mon >= 1,
    ensures
        r == area_of_ws(ws_idx as int, ws_per_mon as int, monitor_rects@),
{
    let n = monitor_rects.len();
    if n == 0 {
        return Rect::new(0, 0, 1920, 1080);
    }
    let share = ws_idx / ws_per_mon;
    if share < n {
        monitor_rects[share]
    } else {
        monitor_rects[n - 1]
    }
}

/// Element `i` of a list of areas, or `default` beyond its end.
pub fn rect_at(rects: &Vec<Rect>, i: usize, default: Rect) -> (r: Rect)
    ensures
        r == area_at(rects@, i as int, default),
{
    if i < rects.len() {
        rects[i]
    } else {
        default
    }
}

/// Distance of a monitor's left edge from `x`.
pub open spec fn edge_distance(r: Rect, x: int) -> int {
    if r.x >= x {
        r.x - x
    } else {
        x - r.x
    }
}

/// Among the first `n` monitors, the one whose left edge is nearest to `x`; the
/// first such one.
pub open spec fn nearest_monitor(rects: Seq<Rect>, x: int, n: int) -> int
    decreases n,
{
    if n <= 1 {
        0
    } else {
        let m = nearest_monitor(rects, x, n - 1);
        if edge_distance(rects[n - 1], x) < edge_distance(rects[m], x) {
            n - 1
        } else {
            m
        }
    }
}

/// Every distance from `x` to a monitor's left edge can be computed.
pub open spec fn distances_fit(rects: Seq<Rect>, x: i32) -> bool {
    forall|m: int| 0 <= m < rects.len() ==> -i32::MAX <= (#[trigger] rects[m]).x - x <= i32::MAX
}

/// The monitor whose left edge best matches `window_x`.
pub fn find_monitor_idx(rects: &Vec<Rect>, window_x: i32) -> (r: usize)
    requires
        distances_fit(rects@, window_x),
    ensures
        r == nearest_monitor(rects@, window_x as int, rects@.len() as int),
        rects@.len() > 0 ==> r < rects@.len(),
{
    if rects.len() == 0 {
        return 0;
    }
    let mut best: usize = 0;
    let mut i: usize = 1;
    while i < rects.len()
        invariant
            1 <= i <= rects@.len(),
            best < i,
            distances_fit(rects@, window_x),
            best == nearest_monitor(rects@, window_x as int, i as int),
        decreases rects@.len() - i,
    {
        let here = distance_to(rects[i], window_x);
        let there = distance_to(rects[best], window_x);
        if here < there {
            best = i;
        }
        i += 1;
    }
    best
}

fn distance_to(r: Rect, x: i32) -> (d: i32)
    requires
        -i32::MAX <= r.x - x <= i32::MAX,
    ensures
        d == edge_distance(r, x as int),
{
    let d: i32 = r.x - x;
    if d < 0 {
        -d
    } else {
        d
    }
}

/// The monitor found is nearest: none is nearer, and none before it is as near.
pub proof fn nearest_monitor_is_nearest(rects: Seq<Rect>, x: int, n: int, j: int)
    requires
        0 <= j < n <= rects.len(),
    ensures
        0 <= nearest_monitor(rects, x, n) < n,
        edge_distance(rects[nearest_monitor(rects, x, n)], x) <= edge_distance(rects[j], x),
        j < nearest_monitor(rects, x, n) ==> edge_distance(rects[nearest_monitor(rects, x, n)], x)
            < edge_distance(rects[j], x),
    decreases n,
{
    if n > 1 {
        if j < n - 1 {
            nearest_monitor_is_nearest(rects, x, n - 1, j);
        } else {
            nearest_monitor_is_nearest(rects, x, n - 1, 0);
        }
    }
}

/// Among the first `n` monitors, the first whose workspace holds `id`.
pub open spec fn monitor_showing(s: ManagerState, id: WindowId, n: int) -> Option<int>
    decreases n,
{
    if n <= 0 {
        None
    } else if let Some(m) = monitor_showing(s, id, n - 1) {
        Some(m)
    } else if s.workspaces[s.monitor_ws[n - 1] as int].windows.contains(id) {
        Some(n - 1)
    } else {
        None
    }
}

/// The visible workspace that holds `id`, and the first monitor that shows it.
pub open spec fn visible_place(s: ManagerState, id: WindowId) -> Option<(usize, int)> {
    match monitor_showing(s, id, s.monitor_ws.len() as int) {
        Some(m) => Some((s.monitor_ws[m], m)),
        None => None,
    }
}

/// Among the first `n` workspaces, the first that holds `id`.
pub open spec fn ws_holding(ws: Seq<WorkspaceView>, id: WindowId, n: int) -> Option<int>
    decreases n,
{
    if n <= 0 {
        None
    } else if let Some(i) = ws_holding(ws, id, n - 1) {
        Some(i)
    } else if ws[n - 1].windows.contains(id) {
        Some(n - 1)
    } else {
        None
    }
}

proof fn lemma_showing_bound(s: ManagerState, id: WindowId, n: int)
    ensures
        monitor_showing(s, id, n) matches Some(m) ==> 0 <= m < n && s.workspaces[s.monitor_ws[m] as int].windows.contains(id),
    decreases n,
{
    if n > 0 {
        lemma_showing_bound(s, id, n - 1);
    }
}

proof fn lemma_showing_stays(s: ManagerState, id: WindowId, k: int, n: int)
    requires
        k <= n,
        monitor_showing(s, id, k) is Some,
    ensures
        monitor_showing(s, id, n) == monitor_showing(s, id, k),
    decreases n,
{
    if k < n {
        lemma_showing_stays(s, id, k, n - 1);
    }
}

proof fn lemma_holding_stays(ws: Seq<WorkspaceView>, id: WindowId, k: int, n: int)
    requires
        k <= n,
        ws_holding(ws, id, k) is Some,
    ensures
        ws_holding(ws, id, n) == ws_holding(ws, id, k),
    decreases n,
{
    if k < n {
        lemma_holding_stays(ws, id, k, n - 1);
    }
}

/// A window's visible place is a monitor and the workspace that it shows.
pub proof fn lemma_visible_place(s: ManagerState, id: WindowId)
    ensures
        visible_place(s, id) matches Some((ws, m)) ==> {
            &&& 0 <= m < s.monitor_ws.len()
            &&& ws == s.monitor_ws[m]
            &&& s.workspaces[ws as int].windows.contains(id)
        },
{
    lemma_showing_bound(s, id, s.monitor_ws.len() as int);
}

impl Manager {
    /// The state at startup, before any window is known.
    pub fn new(config: Config, bindings: BindingMap, monitor_rects: Vec<Rect>) -> (r: Self)
        requires
            config.workspaces@.len() >= 1,
            config.workspaces@.len() + monitor_rects@.len() < usize::MAX,
        ensures
            r@ == initial_state(
                workspace_names(config.workspaces@),
                config.default_layout,
                monitor_rects@,
                config.animations.enabled,
                config.taskbar_mode,
            ),
            r@.wf(),
            r.config == config,
            r.bindings == bindings,
    {
        let ghost names = workspace_names(config.workspaces@);
        let n_ws = config.workspaces.len();
        let n_mons = if monitor_rects.len() == 0 {
            1
        } else {
            monitor_rects.len()
        };
        let ws_per_mon: usize = (n_ws + n_mons - 1) / n_mons;
        let ghost end = initial_state(
            names,
            config.default_layout,
            monitor_rects@,
            config.animations.enabled,
            config.taskbar_mode,
        );
        proof {
            assert(ws_per_mon == even_share(n_ws as int, n_mons as int));
            assert(1 <= ws_per_mon && n_mons * ws_per_mon <= n_ws + n_mons - 1) by (nonlinear_arith)
                requires
                    n_ws >= 1,
                    n_mons >= 1,
                    ws_per_mon == (n_ws + n_mons - 1) / (n_mons as int),
            ;
        }
        let mut workspaces: Vec<Workspace> = Vec::new();
        let mut i: usize = 0;
        while i < n_ws
            invariant
                i <= n_ws,
                n_ws == config.workspaces@.len(),
                names == workspace_names(config.workspaces@),
                workspaces@.len() == i,
                forall|j: int|
                    0 <= j < i ==> (#[trigger] workspaces@[j])@ == (WorkspaceView {
                        name: names[j],
                        layout: config.default_layout,
                        windows: seq![],
                        focused: None,
                        fullscreen: Map::empty(),
                    }),
            decreases n_ws - i,
        {
            let mut ws = Workspace::new(config.workspaces[i].name.as_str());
            ws.layout = config.default_layout;
            workspaces.push(ws);
            i += 1;
        }
        let mut monitor_ws: Vec<usize> = Vec::new();
        let mut m: usize = 0;
        while m < n_mons
            invariant
                m <= n_mons,
                n_ws >= 1,
                ws_per_mon >= 1,
                n_mons * ws_per_mon <= usize::MAX,
                monitor_ws@.len() == m,
                forall|j: int|
                    0 <= j < m ==> (#[trigger] monitor_ws@[j]) == first_ws(
                        j,
                        ws_per_mon as int,
                        n_ws as int,
                    ),
            decreases n_mons - m,
        {
            assert(m * ws_per_mon <= n_mons * ws_per_mon) by (nonlinear_arith)
                requires
                    m <= n_mons,
            ;
            let start: usize = m * ws_per_mon;
            monitor_ws.push(
                if start < n_ws {
                    start
                } else {
                    n_ws - 1
                },
            );
            m += 1;
        }
        let r = Manager {
            workspaces,
            monitor_ws,
            focused_mon: 0,
            ws_per_mon,
            monitor_rects,
            config,
            bindings,
        };
        proof {
            assert(r@.workspaces =~= end.workspaces);
            assert forall|j: int| 0 <= j < n_mons implies r@.monitor_ws[j] == #[trigger] end.monitor_ws[j]
                && end.monitor_ws[j] < n_ws by {
                assert(0 <= j * ws_per_mon) by (nonlinear_arith)
                    requires
                        0 <= j,
                        0 <= ws_per_mon,
                ;
            }
            assert(r@.monitor_ws =~= end.monitor_ws);
        }
        r
    }

    /// The visible workspace and monitor of a window.
    pub fn find_visible_ws_and_mon(&self, id: WindowId) -> (r: Option<(usize, usize)>)
        requires
            self@.wf(),
        ensures
            match r {
                Some((ws, m)) => visible_place(self@, id) == Some((ws, m as int)) && m
                    < self.monitor_ws@.len() && ws == self.monitor_ws@[m as int],
                None => visible_place(self@, id) is None,
            },
    {
        let mut m: usize = 0;
        while m < self.monitor_ws.len()
            invariant
                m <= self.monitor_ws@.len(),
                self@.wf(),
                monitor_showing(self@, id, m as int) is None,
            decreases self.monitor_ws@.len() - m,
        {
            let ws = self.monitor_ws[m];
            assert(self@.monitor_ws[m as int] < self@.workspaces.len());
            if self.workspaces[ws].contains(id) {
                proof {
                    lemma_showing_stays(self@, id, m + 1, self.monitor_ws@.len() as int);
                }
                return Some((ws, m));
            }
            m += 1;
        }
        None
    }

    /// The workspace that holds a window, visible or not.
    pub fn find_any_workspace(&self, id: WindowId) -> (r: Option<usize>)
        ensures
            match r {
                Some(i) => ws_holding(self@.workspaces, id, self@.workspaces.len() as int) == Some(
                    i as int,
                ) && i < self.workspaces@.len(),
                None => ws_holding(self@.workspaces, id, self@.workspaces.len() as int) is None,
            },
    {
        let mut i: usize = 0;
        while i < self.workspaces.len()
            invariant
                i <= self.workspaces@.len(),
                ws_holding(self@.workspaces, id, i as int) is None,
            decreases self.workspaces@.len() - i,
        {
            if self.workspaces[i].contains(id) {
                proof {
                    lemma_holding_stays(self@.workspaces, id, i + 1, self.workspaces@.len() as int);
                }
                return Some(i);
            }
            i += 1;
        }
        None
    }
}

} // verus!
