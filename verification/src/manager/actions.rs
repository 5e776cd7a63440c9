//! What each user action does.

use crate::action::Action;
use crate::config::TaskbarMode;
use crate::layout::LayoutKind;
use crate::manager::focus::{
    active, active_windows, beside, beside_index, focus_outcome, focus_window, no_reaction, reacts,
};
use crate::manager::info::{find_info, info_of, WindowInfo};
use crate::manager::state::{area_at, rect_at, ws_monitor_rect, Manager, ManagerState, Outcome};
use crate::manager::step::{Command, Step};
use crate::window::{Rect, WindowId};
use crate::workspace::{find_position, position, WorkspaceView};
use vstd::prelude::*;

verus! {

// ── Reordering windows ───────────────────────────────────────────────────────

/// `ids` with the first `a` and the first `b` exchanged, if it holds both.
pub open spec fn exchanged(ids: Seq<WindowId>, a: WindowId, b: WindowId) -> Seq<WindowId> {
    match (position(ids, a), position(ids, b)) {
        (Some(i), Some(j)) => ids.update(i, ids[j]).update(j, ids[i]),
        _ => ids,
    }
}

/// Exchange the first `a` and the first `b`, if `ids` holds both.
pub fn exchange(ids: &mut Vec<WindowId>, a: WindowId, b: WindowId)
    ensures
        final(ids)@ == exchanged(old(ids)@, a, b),
{
    match (find_position(ids, a), find_position(ids, b)) {
        (Some(i), Some(j)) => {
            let x = ids[i];
            let y = ids[j];
            ids[i] = y;
            ids[j] = x;
        },
        _ => {},
    }
}

/// The step that lays out a workspace, eased or at once.
pub open spec fn layout_step(ws: usize, area: Rect, animate: bool) -> Step {
    if animate {
        Step::AnimatedLayout { ws, area }
    } else {
        Step::Layout { ws, area }
    }
}

fn layout_step_for(ws: usize, area: Rect, animate: bool) -> (r: Step)
    ensures
        r == layout_step(ws, area, animate),
{
    if animate {
        Step::AnimatedLayout { ws, area }
    } else {
        Step::Layout { ws, area }
    }
}

/// The steps that lay out two workspaces, eased together or one after the other.
pub open spec fn pair_steps(
    first: usize,
    first_area: Rect,
    second: usize,
    second_area: Rect,
    animate: bool,
) -> Seq<Step> {
    if animate {
        seq![Step::AnimatedPair { first, first_area, second, second_area }]
    } else {
        seq![
            Step::Layout { ws: first, area: first_area },
            Step::Layout { ws: second, area: second_area },
        ]
    }
}

/// The focused window crosses to the neighbouring monitor: it enters the
/// workspace there from the near side and keeps the focus.
pub open spec fn cross_outcome(
    s: ManagerState,
    id: WindowId,
    neighbour: usize,
    forward: bool,
    animate: bool,
) -> Outcome {
    let from = s.current();
    let to = s.monitor_ws[neighbour as int];
    let left = s.with_ws(from as int, s.current_ws().removed(id));
    let w = left.workspaces[to as int];
    let entered = left.with_ws(
        to as int,
        WorkspaceView {
            windows: if forward {
                seq![id] + w.windows
            } else {
                w.windows.push(id)
            },
            ..w
        },
    );
    let first_area = area_at(s.monitor_rects, s.focused_mon as int, s.current_area());
    let second_area = area_at(s.monitor_rects, neighbour as int, s.current_area());
    let layout = pair_steps(from, first_area, to, second_area, animate);
    let focus = focus_window(ManagerState { focused_mon: neighbour, ..entered }, id, to);
    Outcome { state: focus.state, steps: layout + focus.steps }
}

/// The focused window changes places with another one of its workspace.
pub open spec fn exchange_outcome(
    s: ManagerState,
    id: WindowId,
    other: WindowId,
    animate: bool,
) -> Outcome {
    let w = s.current_ws();
    let after = s.with_ws(
        s.current() as int,
        WorkspaceView { windows: exchanged(w.windows, id, other), ..w },
    );
    Outcome {
        state: after,
        steps: seq![
            layout_step(s.current(), s.current_area(), animate),
            after.borders(s.current()),
        ],
    }
}

/// Whether there is a monitor beside monitor `m`.
pub open spec fn has_neighbour(m: int, monitors: int, forward: bool) -> bool {
    if forward {
        m + 1 < monitors
    } else {
        m >= 1
    }
}

/// Move the focused window forward or backward in layout order, over the edge
/// to the neighbouring monitor where there is one, else around.  Minimised
/// windows are passed over.
pub open spec fn move_outcome(
    s: ManagerState,
    infos: Seq<WindowInfo>,
    forward: bool,
    animate: bool,
) -> Outcome {
    let shown = active_windows(s.current_ws().windows, infos);
    match s.focused_window() {
        None => no_reaction(s),
        Some(id) => match position(shown, id) {
            None => no_reaction(s),
            Some(pos) => {
                let at_edge = if forward {
                    pos + 1 >= shown.len()
                } else {
                    pos == 0
                };
                if at_edge && has_neighbour(
                    s.focused_mon as int,
                    s.monitor_ws.len() as int,
                    forward,
                ) {
                    let neighbour = if forward {
                        (s.focused_mon + 1) as usize
                    } else {
                        (s.focused_mon - 1) as usize
                    };
                    cross_outcome(s, id, neighbour, forward, animate)
                } else {
                    exchange_outcome(
                        s,
                        id,
                        shown[beside(pos, shown.len() as int, forward)],
                        animate,
                    )
                }
            },
        },
    }
}

// ── One window ───────────────────────────────────────────────────────────────

/// Close the focused window.
pub open spec fn kill_outcome(s: ManagerState) -> Outcome {
    match s.focused_window() {
        Some(id) => Outcome { state: s, steps: seq![Step::Do(Command::Close { id })] },
        None => no_reaction(s),
    }
}

/// Toggle whether the focused window floats.
pub open spec fn float_outcome(s: ManagerState, infos: Seq<WindowInfo>) -> Outcome {
    match s.focused_window() {
        Some(id) => Outcome {
            state: s,
            steps: (match info_of(infos, id) {
                Some(w) => seq![Step::Do(Command::SetFloating { id, floating: !w.floating })],
                None => seq![],
            }) + seq![
                Step::Layout { ws: s.current(), area: s.current_area() },
                s.borders(s.current()),
                Step::Broadcast,
            ],
        },
        None => no_reaction(s),
    }
}

/// The layout gives no window a tile.
pub open spec fn tileless(layout: LayoutKind) -> bool {
    layout is Float || layout == (LayoutKind::Columns { count: 0 })
}

/// Take a window down from its whole monitor.  Where no layout will place it, it
/// goes back to where it was.
pub open spec fn leave_steps(w: WindowInfo, layout: LayoutKind, saved: Rect) -> Seq<Step> {
    seq![Step::Do(Command::SetTopmost { id: w.id, topmost: w.floating })] + (if w.floating
        || tileless(layout) {
        seq![Step::Do(Command::SetGeometry { id: w.id, rect: saved })]
    } else {
        seq![]
    })
}

/// Toggle whether the focused window is fullscreen.  Entering saves where it
/// was and brings it above everything else; leaving lays out the workspace and
/// restores a window that the layout does not place.
pub open spec fn fullscreen_outcome(
    s: ManagerState,
    infos: Seq<WindowInfo>,
    animate: bool,
) -> Outcome {
    let ws = s.current();
    let w = s.current_ws();
    match s.focused_window() {
        None => Outcome { state: s, steps: seq![Step::Broadcast] },
        Some(id) => if w.is_full(id) {
            let after = s.with_ws(
                ws as int,
                WorkspaceView { fullscreen: w.fullscreen.remove(id.0), ..w },
            );
            Outcome {
                state: after,
                steps: (match info_of(infos, id) {
                    Some(i) => leave_steps(i, w.layout, w.fullscreen[id.0]),
                    None => seq![],
                }) + seq![
                    layout_step(ws, s.current_area(), animate),
                    after.borders(ws),
                    Step::Broadcast,
                ],
            }
        } else {
            let saved = match info_of(infos, id) {
                Some(i) => i.geometry,
                None => s.current_area(),
            };
            let after = s.with_ws(
                ws as int,
                WorkspaceView { fullscreen: w.fullscreen.insert(id.0, saved), ..w },
            );
            Outcome {
                state: after,
                steps: (match info_of(infos, id) {
                    Some(i) => enter_steps(i, animate),
                    None => seq![],
                }) + seq![after.borders(ws), Step::Broadcast],
            }
        },
    }
}

/// Bring a window above the others and onto its whole monitor.
pub open spec fn enter_steps(w: WindowInfo, animate: bool) -> Seq<Step> {
    let slide = if animate && w.geometry != w.full_rect {
        seq![Step::Slide { id: w.id, from: w.geometry, to: w.full_rect }]
    } else {
        seq![]
    };
    seq![Step::Do(Command::SetTopmost { id: w.id, topmost: true })] + slide + seq![
        Step::Do(Command::EnterFullscreen { id: w.id, rect: w.full_rect }),
    ]
}

/// Set the layout of the current workspace.
pub open spec fn set_layout_outcome(s: ManagerState, kind: LayoutKind) -> Outcome {
    let ws = s.current();
    let after = s.with_ws(ws as int, WorkspaceView { layout: kind, ..s.current_ws() });
    Outcome {
        state: after,
        steps: seq![Step::Layout { ws, area: s.current_area() }, after.borders(ws)]
            + after.raise_steps(ws as int) + seq![Step::Broadcast],
    }
}

impl ManagerState {
    /// In a monocle layout, keep the focused window on top.
    pub open spec fn raise_steps(self, ws: int) -> Seq<Step> {
        let w = self.workspaces[ws];
        if w.layout == LayoutKind::Monocle && w.focused is Some {
            seq![Step::Do(Command::Raise { id: w.focused->0 })]
        } else {
            seq![]
        }
    }
}

// ── Workspaces ───────────────────────────────────────────────────────────────

/// `f` of each window, as steps.
pub open spec fn each(ids: Seq<WindowId>, f: spec_fn(WindowId) -> Command) -> Seq<Step> {
    Seq::new(ids.len(), |i: int| Step::Do(f(ids[i])))
}

/// How a window leaves the screen with its workspace.
pub open spec fn leave_command(mode: TaskbarMode, id: WindowId) -> Command {
    match mode {
        TaskbarMode::Global => Command::Park { id },
        TaskbarMode::Local => Command::Hide { id },
    }
}

/// Show workspace `to` in place of workspace `from`.
pub open spec fn swap_in_steps(
    s: ManagerState,
    from: usize,
    to: usize,
    area: Rect,
    animate: bool,
) -> Seq<Step> {
    let incoming = s.workspaces[to as int].windows;
    let outgoing = s.workspaces[from as int].windows;
    let appear = each(incoming, |id: WindowId| Command::Show { id }) + seq![
        Step::Layout { ws: to, area },
        s.borders(to),
    ];
    let leave = each(outgoing, |id: WindowId| leave_command(s.taskbar, id));
    if animate {
        each(incoming, |id: WindowId| Command::SetAlpha { id, alpha: 0 }) + appear + seq![
            Step::Crossfade { outgoing: from, incoming: to },
        ] + leave + each(outgoing, |id: WindowId| Command::ClearAlpha { id }) + each(
            incoming,
            |id: WindowId| Command::ClearAlpha { id },
        )
    } else {
        appear + leave
    }
}

/// The index that a workspace number stands for.
pub open spec fn index_of_number(n: u8) -> int {
    if n == 0 {
        0
    } else {
        n - 1
    }
}

/// Show a workspace on the monitor that owns it.
pub open spec fn switch_outcome(s: ManagerState, n: u8, animate: bool) -> Outcome {
    let to = index_of_number(n);
    let mon = s.owner(to);
    if to >= s.workspaces.len() || s.monitor_ws[mon] == to {
        no_reaction(s)
    } else {
        let from = s.monitor_ws[mon];
        let after = ManagerState {
            monitor_ws: s.monitor_ws.update(mon, to as usize),
            focused_mon: mon as usize,
            ..s
        };
        let area = area_at(s.monitor_rects, mon, s.current_area());
        Outcome {
            state: after,
            steps: swap_in_steps(after, from, to as usize, area, animate).push(
                Step::SettleFocus { ws: to as usize },
            ),
        }
    }
}

/// Among the first `n` monitors, the first that shows workspace `ws`.
pub open spec fn monitor_of(monitor_ws: Seq<usize>, ws: int, n: int) -> Option<int>
    decreases n,
{
    if n <= 0 {
        None
    } else if let Some(m) = monitor_of(monitor_ws, ws, n - 1) {
        Some(m)
    } else if monitor_ws[n - 1] == ws {
        Some(n - 1)
    } else {
        None
    }
}

/// Move the focused window to another workspace.  Where that is not shown, the
/// window leaves the screen.
pub open spec fn send_outcome(s: ManagerState, n: u8) -> Outcome {
    let to = index_of_number(n);
    let from = s.current();
    match s.focused_window() {
        Some(id) if to < s.workspaces.len() && to != from => {
            let left = s.with_ws(from as int, s.current_ws().removed(id));
            let after = left.with_ws(to, left.workspaces[to].added(id));
            let relayout = seq![
                Step::Layout { ws: from, area: s.current_area() },
                after.borders(from),
            ];
            Outcome {
                state: after,
                steps: match monitor_of(s.monitor_ws, to, s.monitor_ws.len() as int) {
                    Some(m) => relayout + seq![
                        Step::Layout {
                            ws: to as usize,
                            area: area_at(s.monitor_rects, m, s.current_area()),
                        },
                        after.borders(to as usize),
                        Step::Broadcast,
                    ],
                    None => (match s.taskbar {
                        TaskbarMode::Global => seq![Step::Do(Command::Park { id })],
                        TaskbarMode::Local => seq![
                            Step::Do(Command::Hide { id }),
                            Step::Do(Command::HideBorder { id }),
                        ],
                    }) + relayout + seq![Step::Broadcast],
                },
            }
        },
        _ => no_reaction(s),
    }
}

/// Show every known window, then leave.
pub open spec fn quit_steps(infos: Seq<WindowInfo>) -> Seq<Step> {
    Seq::new(infos.len(), |i: int| Step::Do(Command::Show { id: infos[i].id })).push(Step::Exit)
}

/// What a user action does.
pub open spec fn action_outcome(
    s: ManagerState,
    action: Action,
    infos: Seq<WindowInfo>,
    animate: bool,
) -> Outcome {
    match action {
        Action::FocusNext => focus_outcome(s, infos, true),
        Action::FocusPrev => focus_outcome(s, infos, false),
        Action::MoveNext => move_outcome(s, infos, true, animate),
        Action::MovePrev => move_outcome(s, infos, false, animate),
        Action::KillFocused => kill_outcome(s),
        Action::ToggleFloat => float_outcome(s, infos),
        Action::ToggleFullscreen => fullscreen_outcome(s, infos, animate),
        Action::SetLayout(kind) => set_layout_outcome(s, kind),
        Action::SwitchWorkspace(n) => switch_outcome(s, n, animate),
        Action::MoveFocusedToWorkspace(n) => send_outcome(s, n),
        Action::ReloadConfig => Outcome { state: s, steps: seq![Step::ReloadConfig] },
        Action::Quit => Outcome { state: s, steps: quit_steps(infos) },
    }
}

// ── Performing actions ───────────────────────────────────────────────────────

pub(crate) fn push_each(steps: &mut Vec<Step>, ids: &Vec<WindowId>, f: Each)
    ensures
        final(steps)@ == old(steps)@ + each(ids@, f.commands()),
{
    let ghost start = steps@;
    let ghost all = each(ids@, f.commands());
    let mut i: usize = 0;
    assert(start + all.take(0) =~= start);
    while i < ids.len()
        invariant
            i <= ids@.len(),
            all == each(ids@, f.commands()),
            steps@ == start + all.take(i as int),
        decreases ids@.len() - i,
    {
        steps.push(Step::Do(f.command(ids[i])));
        assert(start + all.take(i + 1) =~= (start + all.take(i as int)).push(all[i as int]));
        i += 1;
    }
    assert(all.take(i as int) =~= all);
}

/// A command for each of several windows.
#[derive(Clone, Copy)]
pub(crate) enum Each {
    Show,
    Transparent,
    Opaque,
    Leave(TaskbarMode),
}

impl Each {
    pub(crate) open spec fn commands(self) -> spec_fn(WindowId) -> Command {
        match self {
            Each::Show => |id: WindowId| Command::Show { id },
            Each::Transparent => |id: WindowId| Command::SetAlpha { id, alpha: 0 },
            Each::Opaque => |id: WindowId| Command::ClearAlpha { id },
            Each::Leave(mode) => |id: WindowId| leave_command(mode, id),
        }
    }

    fn command(self, id: WindowId) -> (r: Command)
        ensures
            r == (self.commands())(id),
    {
        match self {
            Each::Show => Command::Show { id },
            Each::Transparent => Command::SetAlpha { id, alpha: 0 },
            Each::Opaque => Command::ClearAlpha { id },
            Each::Leave(mode) => match mode {
                TaskbarMode::Global => Command::Park { id },
                TaskbarMode::Local => Command::Hide { id },
            },
        }
    }
}

impl Manager {
    /// Index of the workspace on the focused monitor.
    pub fn current(&self) -> (r: usize)
        requires
            self@.wf(),
        ensures
            r == self@.current(),
            r < self.workspaces@.len(),
    {
        assert(self@.monitor_ws[self.focused_mon as int] < self@.workspaces.len());
        self.monitor_ws[self.focused_mon]
    }

    /// The usable area for the workspace on the focused monitor.
    pub fn current_area(&self) -> (r: Rect)
        requires
            self@.wf(),
        ensures
            r == self@.current_area(),
    {
        ws_monitor_rect(self.current(), self.ws_per_mon, &self.monitor_rects)
    }

    /// The step that repaints a workspace with its present focus.
    pub fn borders(&self, ws: usize) -> (r: Step)
        requires
            ws < self.workspaces@.len(),
        ensures
            r == self@.borders(ws),
    {
        Step::Borders { ws, focused: self.workspaces[ws].focused }
    }

    /// The monitor that owns a workspace.
    pub fn owner(&self, ws: usize) -> (r: usize)
        requires
            self@.wf(),
        ensures
            r == self@.owner(ws as int),
            r < self.monitor_ws@.len(),
    {
        let share = ws / self.ws_per_mon;
        let n = self.monitor_ws.len();
        if share < n {
            share
        } else {
            n - 1
        }
    }

    fn cross(&mut self, id: WindowId, neighbour: usize, forward: bool, animate: bool) -> (r: Vec<
        Step,
    >)
        requires
            old(self)@.wf(),
            neighbour < old(self).monitor_ws@.len(),
        ensures
            reacts(
                *old(self),
                *final(self),
                r@,
                cross_outcome(old(self)@, id, neighbour, forward, animate),
            ),
            final(self)@.wf(),
    {
        let ghost s = self@;
        let from = self.current();
        let cur_area = self.current_area();
        let first_area = rect_at(&self.monitor_rects, self.focused_mon, cur_area);
        let second_area = rect_at(&self.monitor_rects, neighbour, cur_area);
        let to = self.monitor_ws[neighbour];
        assert(s.monitor_ws[neighbour as int] < s.workspaces.len());
        self.workspaces[from].remove_window(id);
        let ghost left = s.with_ws(from as int, s.current_ws().removed(id));
        assert(self@.workspaces =~= left.workspaces);
        if forward {
            self.workspaces[to].windows.insert(0, id);
            assert(self.workspaces@[to as int].windows@ =~= seq![id]
                + left.workspaces[to as int].windows);
        } else {
            self.workspaces[to].windows.push(id);
        }
        let ghost w = left.workspaces[to as int];
        let ghost entered = left.with_ws(
            to as int,
            WorkspaceView {
                windows: if forward {
                    seq![id] + w.windows
                } else {
                    w.windows.push(id)
                },
                ..w
            },
        );
        assert(self@.workspaces =~= entered.workspaces);
        self.focused_mon = neighbour;
        let mut steps: Vec<Step> = Vec::new();
        if animate {
            steps.push(Step::AnimatedPair { first: from, first_area, second: to, second_area });
        } else {
            steps.push(Step::Layout { ws: from, area: first_area });
            steps.push(Step::Layout { ws: to, area: second_area });
        }
        let ghost layout = steps@;
        let mut more = self.give_focus(id, to);
        let ghost tail = more@;
        steps.append(&mut more);
        assert(layout =~= pair_steps(from, first_area, to, second_area, animate));
        assert(steps@ =~= layout + tail);
        steps
    }

    fn exchange_with(&mut self, id: WindowId, other: WindowId, animate: bool) -> (r: Vec<Step>)
        requires
            old(self)@.wf(),
        ensures
            reacts(
                *old(self),
                *final(self),
                r@,
                exchange_outcome(old(self)@, id, other, animate),
            ),
            final(self)@.wf(),
    {
        let ghost s = self@;
        let ws = self.current();
        let area = self.current_area();
        exchange(&mut self.workspaces[ws].windows, id, other);
        assert(self@.workspaces =~= s.with_ws(
            ws as int,
            WorkspaceView {
                windows: exchanged(s.current_ws().windows, id, other),
                ..s.current_ws()
            },
        ).workspaces);
        vec![layout_step_for(ws, area, animate), self.borders(ws)]
    }

    /// Move the focused window forward or backward in layout order.
    pub fn move_window(&mut self, forward: bool, infos: &Vec<WindowInfo>, animate: bool) -> (r: Vec<
        Step,
    >)
        requires
            old(self)@.wf(),
        ensures
            reacts(
                *old(self),
                *final(self),
                r@,
                move_outcome(old(self)@, infos@, forward, animate),
            ),
            final(self)@.wf(),
    {
        let ws = self.current();
        let id = match self.workspaces[ws].focused {
            Some(id) => id,
            None => {
                return Vec::new();
            },
        };
        let shown = active(&self.workspaces[ws].windows, infos);
        let pos = match find_position(&shown, id) {
            Some(pos) => pos,
            None => {
                return Vec::new();
            },
        };
        let n = self.monitor_ws.len();
        let len = shown.len();
        let at_edge = if forward {
            pos == len - 1
        } else {
            pos == 0
        };
        if at_edge && forward && self.focused_mon + 1 < n {
            let neighbour = self.focused_mon + 1;
            self.cross(id, neighbour, forward, animate)
        } else if at_edge && !forward && self.focused_mon >= 1 {
            let neighbour = self.focused_mon - 1;
            self.cross(id, neighbour, forward, animate)
        } else {
            let at = beside_index(pos, len, forward);
            self.exchange_with(id, shown[at], animate)
        }
    }

    /// Close the focused window.
    pub fn kill_focused(&self) -> (r: Vec<Step>)
        requires
            self@.wf(),
        ensures
            r@ == kill_outcome(self@).steps,
            kill_outcome(self@).state == self@,
    {
        let ws = self.current();
        match self.workspaces[ws].focused {
            Some(id) => vec![Step::Do(Command::Close { id })],
            None => Vec::new(),
        }
    }

    /// Toggle whether the focused window floats.
    pub fn toggle_float(&self, infos: &Vec<WindowInfo>) -> (r: Vec<Step>)
        requires
            self@.wf(),
        ensures
            r@ == float_outcome(self@, infos@).steps,
            float_outcome(self@, infos@).state == self@,
    {
        let ws = self.current();
        let id = match self.workspaces[ws].focused {
            Some(id) => id,
            None => {
                return Vec::new();
            },
        };
        let mut steps: Vec<Step> = Vec::new();
        match find_info(infos, id) {
            Some(w) => {
                steps.push(Step::Do(Command::SetFloating { id, floating: !w.floating }));
            },
            None => {},
        }
        steps.push(Step::Layout { ws, area: self.current_area() });
        steps.push(self.borders(ws));
        steps.push(Step::Broadcast);
        assert(steps@ =~= float_outcome(self@, infos@).steps);
        steps
    }

    /// Toggle whether the focused window is fullscreen.
    pub fn toggle_fullscreen(&mut self, infos: &Vec<WindowInfo>, animate: bool) -> (r: Vec<Step>)
        requires
            old(self)@.wf(),
        ensures
            reacts(
                *old(self),
                *final(self),
                r@,
                fullscreen_outcome(old(self)@, infos@, animate),
            ),
            final(self)@.wf(),
    {
        let ghost s = self@;
        let ghost end = fullscreen_outcome(s, infos@, animate);
        let ws = self.current();
        let area = self.current_area();
        let id = match self.workspaces[ws].focused {
            Some(id) => id,
            None => {
                let steps: Vec<Step> = vec![Step::Broadcast];
                assert(steps@ =~= end.steps);
                return steps;
            },
        };
        let mut steps: Vec<Step> = Vec::new();
        if self.workspaces[ws].is_fullscreen(id) {
            let saved = self.workspaces[ws].exit_fullscreen(id);
            assert(self@.workspaces =~= end.state.workspaces);
            match find_info(infos, id) {
                Some(w) => {
                    steps.push(Step::Do(Command::SetTopmost { id, topmost: w.floating }));
                    let tileless = match self.workspaces[ws].layout {
                        LayoutKind::Float => true,
                        LayoutKind::Columns { count } => count == 0,
                        _ => false,
                    };
                    if w.floating || tileless {
                        match saved {
                            Some(rect) => {
                                steps.push(Step::Do(Command::SetGeometry { id, rect }));
                            },
                            None => {},
                        }
                    }
                },
                None => {},
            }
            steps.push(layout_step_for(ws, area, animate));
        } else {
            let saved = match find_info(infos, id) {
                Some(w) => w.geometry,
                None => area,
            };
            self.workspaces[ws].enter_fullscreen(id, saved);
            assert(self@.workspaces =~= end.state.workspaces);
            match find_info(infos, id) {
                Some(w) => {
                    steps.push(Step::Do(Command::SetTopmost { id, topmost: true }));
                    if animate && w.geometry != w.full_rect {
                        steps.push(Step::Slide { id, from: w.geometry, to: w.full_rect });
                    }
                    steps.push(Step::Do(Command::EnterFullscreen { id, rect: w.full_rect }));
                },
                None => {},
            }
        }
        steps.push(self.borders(ws));
        steps.push(Step::Broadcast);
        assert(steps@ =~= end.steps);
        steps
    }

    /// Keep the focused window of a monocle workspace on top.
    pub fn push_raise(&self, steps: &mut Vec<Step>, ws: usize)
        requires
            ws < self.workspaces@.len(),
        ensures
            final(steps)@ == old(steps)@ + self@.raise_steps(ws as int),
    {
        if self.workspaces[ws].layout == LayoutKind::Monocle {
            match self.workspaces[ws].focused {
                Some(id) => {
                    steps.push(Step::Do(Command::Raise { id }));
                },
                None => {},
            }
        }
        assert(steps@ =~= old(steps)@ + self@.raise_steps(ws as int));
    }

    /// Set the layout of the current workspace.
    pub fn set_layout(&mut self, kind: LayoutKind) -> (r: Vec<Step>)
        requires
            old(self)@.wf(),
        ensures
            reacts(*old(self), *final(self), r@, set_layout_outcome(old(self)@, kind)),
            final(self)@.wf(),
    {
        let ghost end = set_layout_outcome(self@, kind);
        let ws = self.current();
        let area = self.current_area();
        self.workspaces[ws].layout = kind;
        assert(self@.workspaces =~= end.state.workspaces);
        let mut steps: Vec<Step> = vec![Step::Layout { ws, area }, self.borders(ws)];
        self.push_raise(&mut steps, ws);
        steps.push(Step::Broadcast);
        assert(steps@ =~= end.steps);
        steps
    }

    /// The steps that show workspace `to` in place of workspace `from`.
    pub fn swap_in(&self, from: usize, to: usize, area: Rect, animate: bool) -> (r: Vec<Step>)
        requires
            from < self.workspaces@.len(),
            to < self.workspaces@.len(),
        ensures
            r@ == swap_in_steps(self@, from, to, area, animate),
    {
        let incoming = &self.workspaces[to].windows;
        let outgoing = &self.workspaces[from].windows;
        let mode = self.config.taskbar_mode;
        let mut steps: Vec<Step> = Vec::new();
        if animate {
            push_each(&mut steps, incoming, Each::Transparent);
        }
        push_each(&mut steps, incoming, Each::Show);
        steps.push(Step::Layout { ws: to, area });
        steps.push(self.borders(to));
        if animate {
            steps.push(Step::Crossfade { outgoing: from, incoming: to });
        }
        push_each(&mut steps, outgoing, Each::Leave(mode));
        if animate {
            push_each(&mut steps, outgoing, Each::Opaque);
            push_each(&mut steps, incoming, Each::Opaque);
        }
        assert(steps@ =~= swap_in_steps(self@, from, to, area, animate));
        steps
    }

    /// Show a workspace on the monitor that owns it.
    pub fn switch_workspace(&mut self, n: u8, animate: bool) -> (r: Vec<Step>)
        requires
            old(self)@.wf(),
        ensures
            reacts(*old(self), *final(self), r@, switch_outcome(old(self)@, n, animate)),
            final(self)@.wf(),
    {
        let ghost s = self@;
        let to: usize = if n == 0 {
            0
        } else {
            (n - 1) as usize
        };
        if to >= self.workspaces.len() {
            return Vec::new();
        }
        let mon = self.owner(to);
        let from = self.monitor_ws[mon];
        assert(s.monitor_ws[mon as int] < s.workspaces.len());
        if from == to {
            return Vec::new();
        }
        let area = rect_at(&self.monitor_rects, mon, self.current_area());
        self.monitor_ws[mon] = to;
        self.focused_mon = mon;
        assert(self@.monitor_ws =~= s.monitor_ws.update(mon as int, to));
        let mut steps = self.swap_in(from, to, area, animate);
        steps.push(Step::SettleFocus { ws: to });
        steps
    }

    /// The first monitor that shows a workspace.
    pub fn monitor_showing_ws(&self, ws: usize) -> (r: Option<usize>)
        ensures
            match r {
                Some(m) => monitor_of(
                    self@.monitor_ws,
                    ws as int,
                    self@.monitor_ws.len() as int,
                ) == Some(m as int) && m < self.monitor_ws@.len(),
                None => monitor_of(
                    self@.monitor_ws,
                    ws as int,
                    self@.monitor_ws.len() as int,
                ) is None,
            },
    {
        let mut m: usize = 0;
        while m < self.monitor_ws.len()
            invariant
                m <= self.monitor_ws@.len(),
                monitor_of(self.monitor_ws@, ws as int, m as int) is None,
            decreases self.monitor_ws@.len() - m,
        {
            if self.monitor_ws[m] == ws {
                proof {
                    lemma_monitor_of_stays(
                        self.monitor_ws@,
                        ws as int,
                        m + 1,
                        self.monitor_ws@.len() as int,
                    );
                }
                return Some(m);
            }
            m += 1;
        }
        None
    }

    /// Move the focused window to another workspace.
    pub fn send_to_workspace(&mut self, n: u8) -> (r: Vec<Step>)
        requires
            old(self)@.wf(),
        ensures
            reacts(*old(self), *final(self), r@, send_outcome(old(self)@, n)),
            final(self)@.wf(),
    {
        let ghost s = self@;
        let ghost end = send_outcome(s, n);
        let to: usize = if n == 0 {
            0
        } else {
            (n - 1) as usize
        };
        let from = self.current();
        if to >= self.workspaces.len() || to == from {
            return Vec::new();
        }
        let id = match self.workspaces[from].focused {
            Some(id) => id,
            None => {
                return Vec::new();
            },
        };
        let area = self.current_area();
        self.workspaces[from].exit_fullscreen(id);
        self.workspaces[from].remove_window(id);
        let ghost left = s.with_ws(from as int, s.current_ws().removed(id));
        assert(self@.workspaces[from as int].fullscreen =~= s.current_ws().fullscreen.remove(id.0));
        assert(self@.workspaces =~= left.workspaces);
        self.workspaces[to].add_window(id);
        assert(self@.workspaces =~= left.with_ws(
            to as int,
            left.workspaces[to as int].added(id),
        ).workspaces);
        let mut steps: Vec<Step> = Vec::new();
        let shown = self.monitor_showing_ws(to);
        if shown.is_none() {
            match self.config.taskbar_mode {
                TaskbarMode::Global => {
                    steps.push(Step::Do(Command::Park { id }));
                },
                TaskbarMode::Local => {
                    steps.push(Step::Do(Command::Hide { id }));
                    steps.push(Step::Do(Command::HideBorder { id }));
                },
            }
        }
        steps.push(Step::Layout { ws: from, area });
        steps.push(self.borders(from));
        match shown {
            Some(m) => {
                steps.push(Step::Layout { ws: to, area: rect_at(&self.monitor_rects, m, area) });
                steps.push(self.borders(to));
            },
            None => {},
        }
        steps.push(Step::Broadcast);
        assert(steps@ =~= end.steps);
        steps
    }

    /// Perform a user action.  `system_animations` says whether the host system
    /// has animations enabled.
    pub fn dispatch(&mut self, action: Action, infos: &Vec<WindowInfo>, system_animations: bool)
        -> (r: Vec<Step>)
        requires
            old(self)@.wf(),
        ensures
            reacts(
                *old(self),
                *final(self),
                r@,
                action_outcome(
                    old(self)@,
                    action,
                    infos@,
                    old(self)@.animations && system_animations,
                ),
            ),
            final(self)@.wf(),
    {
        let animate = self.config.animations.enabled && system_animations;
        match action {
            Action::FocusNext => self.move_focus(true, infos),
            Action::FocusPrev => self.move_focus(false, infos),
            Action::MoveNext => self.move_window(true, infos, animate),
            Action::MovePrev => self.move_window(false, infos, animate),
            Action::KillFocused => self.kill_focused(),
            Action::ToggleFloat => self.toggle_float(infos),
            Action::ToggleFullscreen => self.toggle_fullscreen(infos, animate),
            Action::SetLayout(kind) => self.set_layout(kind),
            Action::SwitchWorkspace(n) => self.switch_workspace(n, animate),
            Action::MoveFocusedToWorkspace(n) => self.send_to_workspace(n),
            Action::ReloadConfig => {
                let steps: Vec<Step> = vec![Step::ReloadConfig];
                assert(steps@ =~= seq![Step::ReloadConfig]);
                steps
            },
            Action::Quit => show_all(infos),
        }
    }
}

/// Show every known window, then leave.
pub fn show_all(infos: &Vec<WindowInfo>) -> (r: Vec<Step>)
    ensures
        r@ == quit_steps(infos@),
{
    let mut steps: Vec<Step> = Vec::new();
    let mut i: usize = 0;
    while i < infos.len()
        invariant
            i <= infos@.len(),
            steps@ == quit_steps(infos@).take(i as int),
        decreases infos@.len() - i,
    {
        steps.push(Step::Do(Command::Show { id: infos[i].id }));
        assert(steps@ =~= quit_steps(infos@).take(i + 1));
        i += 1;
    }
    steps.push(Step::Exit);
    assert(steps@ =~= quit_steps(infos@));
    steps
}

proof fn lemma_monitor_of_stays(monitor_ws: Seq<usize>, ws: int, k: int, n: int)
    requires
        k <= n,
        monitor_of(monitor_ws, ws, k) is Some,
    ensures
        monitor_of(monitor_ws, ws, n) == monitor_of(monitor_ws, ws, k),
    decreases n,
{
    if k < n {
        lemma_monitor_of_stays(monitor_ws, ws, k, n - 1);
    }
}

} // verus!
