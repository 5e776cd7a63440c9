//! Taking over a configuration that was read again.

use crate::config::{Config, TaskbarMode};
use crate::hotkey::BindingMap;
use crate::layout::LayoutKind;
use crate::manager::actions::{each, leave_command, push_each, Each};
use crate::manager::events::relayout_steps;
use crate::manager::reload_laws::reloading_follows_the_configuration;
use crate::manager::state::{
    even_share, first_ws, workspace_names, workspace_views, Manager, ManagerState, Outcome,
};
use crate::manager::step::{Command, Step};
use crate::window::WindowId;
use crate::workspace::{Workspace, WorkspaceView};
use vstd::prelude::*;
use vstd::string::*;

verus! {

/// What a configuration says of workspaces.
pub struct Arrangement {
    pub names: Seq<Seq<char>>,
    pub layout: LayoutKind,
    pub animations: bool,
    pub taskbar: TaskbarMode,
}

/// What `config` says of workspaces.
pub open spec fn arrangement_of(config: Config) -> Arrangement {
    Arrangement {
        names: workspace_names(config.workspaces@),
        layout: config.default_layout,
        animations: config.animations.enabled,
        taskbar: config.taskbar_mode,
    }
}

/// A workspace that stays: it keeps its windows and takes its configured name;
/// where the default layout changed, it takes that too.
pub open spec fn kept_workspace(
    w: WorkspaceView,
    name: Seq<char>,
    before: LayoutKind,
    layout: LayoutKind,
) -> WorkspaceView {
    WorkspaceView {
        name,
        layout: if layout == before {
            w.layout
        } else {
            layout
        },
        ..w
    }
}

/// A workspace that is added.
pub open spec fn empty_workspace(name: Seq<char>, layout: LayoutKind) -> WorkspaceView {
    WorkspaceView { name, layout, windows: seq![], focused: None, fullscreen: Map::empty() }
}

/// `w` joined by the workspaces of `ws` from `from` up to `to`, in order.
pub open spec fn gathered(
    w: WorkspaceView,
    ws: Seq<WorkspaceView>,
    from: int,
    to: int,
) -> WorkspaceView
    decreases to - from,
{
    if to <= from {
        w
    } else {
        gathered(w, ws, from, to - 1).joined(ws[to - 1])
    }
}

/// The configured workspaces: those that were there stay, new ones are empty,
/// and the windows of those given up go to the last one.  `before` is the
/// default layout until now.
pub open spec fn reloaded_workspaces(
    ws: Seq<WorkspaceView>,
    before: LayoutKind,
    p: Arrangement,
) -> Seq<WorkspaceView> {
    let n = p.names.len() as int;
    Seq::new(
        n as nat,
        |i: int|
            {
                let w = if i < ws.len() {
                    kept_workspace(ws[i], p.names[i], before, p.layout)
                } else {
                    empty_workspace(p.names[i], p.layout)
                };
                if i == n - 1 {
                    gathered(w, ws, n, ws.len() as int)
                } else {
                    w
                }
            },
    )
}

/// What monitor `m` shows when each monitor owns `share` of `n` workspaces: the
/// workspace that it showed, if that is still its own, or else its first.
pub open spec fn reloaded_monitor(shown: usize, m: int, share: int, n: int) -> usize {
    if shown < n && shown as int / share == m {
        shown
    } else {
        first_ws(m, share, n) as usize
    }
}

/// The state under a new configuration.
pub open spec fn reloaded(s: ManagerState, before: LayoutKind, p: Arrangement) -> ManagerState {
    let n = p.names.len() as int;
    let share = even_share(n, s.monitor_ws.len() as int);
    ManagerState {
        workspaces: reloaded_workspaces(s.workspaces, before, p),
        monitor_ws: Seq::new(
            s.monitor_ws.len(),
            |m: int| reloaded_monitor(s.monitor_ws[m], m, share, n),
        ),
        ws_per_mon: share as usize,
        animations: p.animations,
        taskbar: p.taskbar,
        ..s
    }
}

/// Put the windows of the first `n` workspaces on the screen where their
/// workspace is shown, and off it where it is not.
pub open spec fn screen_steps(s: ManagerState, n: int) -> Seq<Step>
    decreases n,
{
    if n <= 0 {
        seq![]
    } else {
        screen_steps(s, n - 1) + each(
            s.workspaces[n - 1].windows,
            if s.visible(n - 1) {
                |id: WindowId| Command::Show { id }
            } else {
                |id: WindowId| leave_command(s.taskbar, id)
            },
        )
    }
}

/// Take over a new configuration: workspaces, names and layouts follow it,
/// everything shown is laid out and painted anew, and the focus is settled.
pub open spec fn reload_outcome(s: ManagerState, before: LayoutKind, p: Arrangement) -> Outcome {
    let after = reloaded(s, before, p);
    Outcome {
        state: after,
        steps: screen_steps(after, after.workspaces.len() as int) + relayout_steps(
            after,
            after.monitor_rects,
            after.monitor_ws.len() as int,
            true,
        ) + seq![Step::SettleFocus { ws: after.current() }],
    }
}

/// There is a workspace to show, and the shares of the monitors can be numbered.
pub open spec fn reload_ready(s: ManagerState, config: Config) -> bool {
    &&& config.workspaces@.len() >= 1
    &&& config.workspaces@.len() + s.monitor_ws.len() < usize::MAX
}

/// A number of workspaces divided evenly covers them, with less than one share
/// per monitor to spare.
pub proof fn lemma_even_share(n: int, monitors: int)
    requires
        n >= 1,
        monitors >= 1,
    ensures
        1 <= even_share(n, monitors) <= n,
        n <= monitors * even_share(n, monitors) <= n + monitors - 1,
{
    let share = even_share(n, monitors);
    assert(1 <= share && n <= monitors * share <= n + monitors - 1) by (nonlinear_arith)
        requires
            n >= 1,
            monitors >= 1,
            share == (n + monitors - 1) / monitors,
    ;
    assert(share <= n) by (nonlinear_arith)
        requires
            monitors * share <= n + monitors - 1,
            monitors >= 1,
            n >= 1,
    ;
}

/// What a monitor shows is a workspace.
pub proof fn lemma_reloaded_monitor(shown: usize, m: int, share: int, n: int)
    requires
        0 <= m,
        1 <= share,
        1 <= n <= usize::MAX,
    ensures
        reloaded_monitor(shown, m, share, n) < n,
        0 <= first_ws(m, share, n) < n,
{
    assert(0 <= m * share) by (nonlinear_arith)
        requires
            0 <= m,
            1 <= share,
    ;
}

/// The state under a new configuration is well-formed.
pub proof fn lemma_reloaded_wf(s: ManagerState, before: LayoutKind, p: Arrangement)
    requires
        s.wf(),
        p.names.len() >= 1,
        p.names.len() + s.monitor_ws.len() < usize::MAX,
    ensures
        reloaded(s, before, p).wf(),
        reloaded(s, before, p).ws_per_mon == even_share(
            p.names.len() as int,
            s.monitor_ws.len() as int,
        ),
{
    let t = reloaded(s, before, p);
    let n = p.names.len() as int;
    let monitors = s.monitor_ws.len() as int;
    lemma_even_share(n, monitors);
    assert forall|m: int| 0 <= m < t.monitor_ws.len() implies (#[trigger] t.monitor_ws[m])
        < t.workspaces.len() by {
        lemma_reloaded_monitor(s.monitor_ws[m], m, even_share(n, monitors), n);
    }
}

fn rename_workspaces(workspaces: &mut Vec<Workspace>, config: &Config, before: LayoutKind)
    ensures
        workspace_views(final(workspaces)@) == Seq::new(
            old(workspaces)@.len(),
            |i: int|
                if i < config.workspaces@.len() {
                    kept_workspace(
                        old(workspaces)@[i]@,
                        config.workspaces@[i].name@,
                        before,
                        config.default_layout,
                    )
                } else {
                    old(workspaces)@[i]@
                },
        ),
{
    let ghost start = workspaces@;
    let mut i: usize = 0;
    while i < workspaces.len() && i < config.workspaces.len()
        invariant
            i <= workspaces@.len(),
            i <= config.workspaces@.len(),
            workspaces@.len() == start.len(),
            forall|j: int|
                0 <= j < i ==> (#[trigger] workspaces@[j])@ == kept_workspace(
                    start[j]@,
                    config.workspaces@[j].name@,
                    before,
                    config.default_layout,
                ),
            forall|j: int| i <= j < start.len() ==> (#[trigger] workspaces@[j])@ == start[j]@,
        decreases workspaces@.len() - i,
    {
        workspaces[i].name = config.workspaces[i].name.as_str().to_owned();
        if config.default_layout != before {
            workspaces[i].layout = config.default_layout;
        }
        i += 1;
    }
    assert(workspace_views(workspaces@) =~= Seq::new(
        start.len(),
        |i: int|
            if i < config.workspaces@.len() {
                kept_workspace(
                    start[i]@,
                    config.workspaces@[i].name@,
                    before,
                    config.default_layout,
                )
            } else {
                start[i]@
            },
    ));
}

/// Give up the workspaces from `n` on; the one before them takes their windows.
fn gather_workspaces(workspaces: &mut Vec<Workspace>, n: usize)
    requires
        1 <= n <= old(workspaces)@.len(),
    ensures
        final(workspaces)@.len() == n,
        forall|i: int|
            0 <= i < n - 1 ==> (#[trigger] final(workspaces)@[i])@ == old(workspaces)@[i]@,
        final(workspaces)@[n - 1]@ == gathered(
            old(workspaces)@[n - 1]@,
            workspace_views(old(workspaces)@),
            n as int,
            old(workspaces)@.len() as int,
        ),
{
    let ghost start = workspaces@;
    let ghost views = workspace_views(start);
    let ghost mut k: int = n as int;
    while workspaces.len() > n
        invariant
            1 <= n <= k <= start.len(),
            workspaces@.len() == n + (start.len() - k),
            views == workspace_views(start),
            forall|i: int| 0 <= i < n - 1 ==> (#[trigger] workspaces@[i])@ == start[i]@,
            workspaces@[n - 1]@ == gathered(start[n - 1]@, views, n as int, k),
            forall|i: int|
                n <= i < workspaces@.len() ==> (#[trigger] workspaces@[i])@ == views[i + k - n],
        decreases workspaces@.len(),
    {
        assert(workspaces@[n as int]@ == views[k]);
        let ghost before = workspaces@;
        let gone = workspaces.remove(n);
        assert forall|i: int| n <= i < workspaces@.len() implies (#[trigger] workspaces@[i])@
            == views[i + (k + 1) - n] by {
            assert(workspaces@[i] == before[i + 1]);
        }
        assert forall|i: int| 0 <= i < n implies workspaces@[i] == before[i] by {}
        workspaces[n - 1].absorb(gone);
        proof {
            k = k + 1;
        }
    }
}

impl Manager {
    /// Whether a configuration that was read again can be taken over.
    pub fn reload_is_ready(&self, config: &Config) -> (r: bool)
        ensures
            r == reload_ready(self@, *config),
    {
        let n = config.workspaces.len();
        let monitors = self.monitor_ws.len();
        n >= 1 && monitors < usize::MAX && n < usize::MAX - monitors
    }

    fn is_shown(&self, ws: usize) -> (r: bool)
        ensures
            r == self@.visible(ws as int),
    {
        let mut m: usize = 0;
        while m < self.monitor_ws.len()
            invariant
                m <= self.monitor_ws@.len(),
                forall|j: int| 0 <= j < m ==> #[trigger] self.monitor_ws@[j] != ws,
            decreases self.monitor_ws@.len() - m,
        {
            if self.monitor_ws[m] == ws {
                assert(self@.monitor_ws[m as int] == ws);
                return true;
            }
            m += 1;
        }
        false
    }

    fn put_on_screen(&self) -> (r: Vec<Step>)
        ensures
            r@ == screen_steps(self@, self@.workspaces.len() as int),
    {
        let mut steps: Vec<Step> = Vec::new();
        let mut i: usize = 0;
        while i < self.workspaces.len()
            invariant
                i <= self.workspaces@.len(),
                steps@ == screen_steps(self@, i as int),
            decreases self.workspaces@.len() - i,
        {
            if self.is_shown(i) {
                push_each(&mut steps, &self.workspaces[i].windows, Each::Show);
            } else {
                push_each(
                    &mut steps,
                    &self.workspaces[i].windows,
                    Each::Leave(self.config.taskbar_mode),
                );
            }
            i += 1;
            assert(steps@ =~= screen_steps(self@, i as int));
        }
        steps
    }

    fn fit_workspaces(&mut self, config: &Config)
        requires
            config.workspaces@.len() >= 1,
        ensures
            workspace_views(final(self).workspaces@) == reloaded_workspaces(
                old(self)@.workspaces,
                old(self).config.default_layout,
                arrangement_of(*config),
            ),
            final(self).monitor_ws == old(self).monitor_ws,
            final(self).focused_mon == old(self).focused_mon,
            final(self).monitor_rects == old(self).monitor_rects,
    {
        let n = config.workspaces.len();
        let ghost start = self@.workspaces;
        let ghost before = self.config.default_layout;
        let ghost p = arrangement_of(*config);
        let ghost end = reloaded_workspaces(start, before, p);
        let default_layout = self.config.default_layout;
        rename_workspaces(&mut self.workspaces, config, default_layout);
        let ghost named = workspace_views(self.workspaces@);
        assert(named.len() == start.len());
        assert forall|i: int| 0 <= i < self.workspaces@.len() implies (
        #[trigger] self.workspaces@[i])@ == named[i] by {}
        if self.workspaces.len() > n {
            let ghost last = named[n - 1];
            gather_workspaces(&mut self.workspaces, n);
            proof {
                lemma_gathered_same(last, named, start, n as int, start.len() as int);
            }
        }
        let ghost fitted = self.workspaces@;
        while self.workspaces.len() < n
            invariant
                n == config.workspaces@.len(),
                p == arrangement_of(*config),
                fitted.len() <= self.workspaces@.len() <= n,
                self.monitor_ws == old(self).monitor_ws,
                self.focused_mon == old(self).focused_mon,
                self.monitor_rects == old(self).monitor_rects,
                forall|j: int| 0 <= j < fitted.len() ==> #[trigger] self.workspaces@[j] == fitted[j],
                forall|j: int|
                    fitted.len() <= j < self.workspaces@.len() ==> (
                    #[trigger] self.workspaces@[j])@ == empty_workspace(p.names[j], p.layout),
            decreases n - self.workspaces@.len(),
        {
            let i = self.workspaces.len();
            let mut ws = Workspace::new(config.workspaces[i].name.as_str());
            ws.layout = config.default_layout;
            self.workspaces.push(ws);
        }
        assert forall|i: int| 0 <= i < n implies (#[trigger] workspace_views(self.workspaces@)[i])
            == end[i] by {
            if i < fitted.len() {
                assert(self.workspaces@[i] == fitted[i]);
            }
        }
        assert(workspace_views(self.workspaces@) =~= end);
    }

    fn fit_monitors(&mut self, n: usize)
        requires
            n >= 1,
            old(self).monitor_ws@.len() >= 1,
            n + old(self).monitor_ws@.len() < usize::MAX,
        ensures
            ({
                let share = even_share(n as int, old(self).monitor_ws@.len() as int);
                &&& final(self).ws_per_mon == share
                &&& final(self).monitor_ws@ == Seq::new(
                    old(self).monitor_ws@.len(),
                    |m: int| reloaded_monitor(old(self).monitor_ws@[m], m, share, n as int),
                )
            }),
            final(self).workspaces == old(self).workspaces,
            final(self).focused_mon == old(self).focused_mon,
            final(self).monitor_rects == old(self).monitor_rects,
            final(self).config == old(self).config,
    {
        let monitors = self.monitor_ws.len();
        let share: usize = (n + monitors - 1) / monitors;
        let ghost shown = self.monitor_ws@;
        proof {
            lemma_even_share(n as int, monitors as int);
        }
        let mut fitted: Vec<usize> = Vec::new();
        let mut m: usize = 0;
        while m < monitors
            invariant
                m <= monitors,
                n >= 1,
                share == even_share(n as int, monitors as int),
                share >= 1,
                monitors * share <= usize::MAX,
                shown == self.monitor_ws@,
                monitors == shown.len(),
                fitted@.len() == m,
                forall|j: int|
                    0 <= j < m ==> #[trigger] fitted@[j] == reloaded_monitor(
                        shown[j],
                        j,
                        share as int,
                        n as int,
                    ),
            decreases monitors - m,
        {
            assert(m * share <= monitors * share) by (nonlinear_arith)
                requires
                    m <= monitors,
            ;
            let was = self.monitor_ws[m];
            let first: usize = m * share;
            fitted.push(
                if was < n && was / share == m {
                    was
                } else if first < n {
                    first
                } else {
                    n - 1
                },
            );
            m += 1;
        }
        assert(fitted@ =~= Seq::new(
            shown.len(),
            |m: int| reloaded_monitor(shown[m], m, share as int, n as int),
        ));
        self.monitor_ws = fitted;
        self.ws_per_mon = share;
    }

    /// Take over a configuration that was read again: all of it applies at once.
    pub fn reload(&mut self, config: Config, bindings: BindingMap) -> (r: Vec<Step>)
        requires
            old(self)@.wf(),
            reload_ready(old(self)@, config),
        ensures
            final(self)@ == reload_outcome(
                old(self)@,
                old(self).config.default_layout,
                arrangement_of(config),
            ).state,
            r@ == reload_outcome(
                old(self)@,
                old(self).config.default_layout,
                arrangement_of(config),
            ).steps,
            final(self).config == config,
            final(self).bindings == bindings,
            final(self)@.workspaces.len() == config.workspaces@.len(),
            forall|i: int|
                0 <= i < config.workspaces@.len() ==> (#[trigger] final(self)@.workspaces[i]).name
                    == config.workspaces@[i].name@,
            final(self)@.wf(),
    {
        let ghost end = reload_outcome(self@, self.config.default_layout, arrangement_of(config));
        proof {
            lemma_reloaded_wf(self@, self.config.default_layout, arrangement_of(config));
            reloading_follows_the_configuration(
                self@,
                self.config.default_layout,
                arrangement_of(config),
            );
        }
        let n = config.workspaces.len();
        self.fit_workspaces(&config);
        self.fit_monitors(n);
        self.config = config;
        self.bindings = bindings;
        assert(self@.workspaces =~= end.state.workspaces);
        assert(self@.monitor_ws =~= end.state.monitor_ws);
        assert(self@ == end.state);
        let mut steps = self.put_on_screen();
        let mut shown = self.relayout(true);
        steps.append(&mut shown);
        steps.push(Step::SettleFocus { ws: self.current() });
        assert(steps@ =~= end.steps);
        steps
    }
}

/// Only the workspaces that are given up count for what is gathered.
proof fn lemma_gathered_same(
    w: WorkspaceView,
    a: Seq<WorkspaceView>,
    b: Seq<WorkspaceView>,
    from: int,
    to: int,
)
    requires
        0 <= from,
        to <= a.len(),
        to <= b.len(),
        forall|i: int| from <= i < to ==> #[trigger] a[i] == b[i],
    ensures
        gathered(w, a, from, to) == gathered(w, b, from, to),
    decreases to - from,
{
    if to > from {
        lemma_gathered_same(w, a, b, from, to - 1);
        assert(a[to - 1] == b[to - 1]);
    }
}

} // verus!
