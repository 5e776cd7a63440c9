//! Giving a window the keyboard focus.

use crate::layout::LayoutKind;
use crate::manager::info::{is_minimized, minimized, WindowInfo};
use crate::manager::state::{Manager, ManagerState, Outcome};
use crate::manager::step::{Command, Step};
use crate::window::WindowId;
use crate::workspace::{find_position, position, WorkspaceView};
use vstd::prelude::*;

verus! {

/// What happened to a manager: the state afterwards and the steps are those of
/// `o`, and the configuration and the bindings are kept.
pub open spec fn reacts(before: Manager, after: Manager, steps: Seq<Step>, o: Outcome) -> bool {
    &&& after@ == o.state
    &&& steps == o.steps
    &&& after.config == before.config
    &&& after.bindings == before.bindings
}

/// Nothing happens.
pub open spec fn no_reaction(s: ManagerState) -> Outcome {
    Outcome { state: s, steps: seq![] }
}

/// Which windows are not minimised.
pub open spec fn is_active(infos: Seq<WindowInfo>) -> spec_fn(WindowId) -> bool {
    |id: WindowId| !minimized(infos, id)
}

/// The windows among `ids` that are not minimised.
pub open spec fn active_windows(ids: Seq<WindowId>, infos: Seq<WindowInfo>) -> Seq<WindowId> {
    ids.filter(is_active(infos))
}

/// The active windows of the first `n` monitors, monitor by monitor.
pub open spec fn focus_ring(s: ManagerState, infos: Seq<WindowInfo>, n: int) -> Seq<WindowId>
    decreases n,
{
    if n <= 0 {
        seq![]
    } else {
        focus_ring(s, infos, n - 1) + active_windows(
            s.workspaces[s.monitor_ws[n - 1] as int].windows,
            infos,
        )
    }
}

/// The monitor of each window of [`focus_ring`].
pub open spec fn ring_monitors(s: ManagerState, infos: Seq<WindowInfo>, n: int) -> Seq<usize>
    decreases n,
{
    if n <= 0 {
        seq![]
    } else {
        ring_monitors(s, infos, n - 1) + Seq::new(
            active_windows(s.workspaces[s.monitor_ws[n - 1] as int].windows, infos).len(),
            |i: int| (n - 1) as usize,
        )
    }
}

/// Place of the focused window in a ring; the first where it has none.
pub open spec fn place_in(ring: Seq<WindowId>, focused: Option<WindowId>) -> int {
    match focused {
        Some(id) => match position(ring, id) {
            Some(i) => i,
            None => 0,
        },
        None => 0,
    }
}

/// The place after `pos` on a ring of `len`, or before it.
pub open spec fn beside(pos: int, len: int, forward: bool) -> int {
    if forward {
        if pos + 1 < len {
            pos + 1
        } else {
            0
        }
    } else {
        if pos == 0 {
            len - 1
        } else {
            pos - 1
        }
    }
}

/// Move the focus to the next or the previous window over all monitors.
pub open spec fn focus_outcome(s: ManagerState, infos: Seq<WindowInfo>, forward: bool) -> Outcome {
    let n = s.monitor_ws.len() as int;
    let ring = focus_ring(s, infos, n);
    if ring.len() == 0 {
        no_reaction(s)
    } else {
        let at = beside(place_in(ring, s.focused_window()), ring.len() as int, forward);
        let mon = ring_monitors(s, infos, n)[at];
        focus_window(ManagerState { focused_mon: mon, ..s }, ring[at], s.monitor_ws[mon as int])
    }
}

/// Give a window the focus, and tell it so.
pub open spec fn focus_window(s: ManagerState, id: WindowId, ws: usize) -> Outcome {
    let after = s.focusing(id, ws as int);
    Outcome {
        state: after,
        steps: after.focus_steps(id, ws as int).push(Step::Do(Command::Focus { id })),
    }
}

/// The first window among `ids` that is not minimised.
pub open spec fn first_active(ids: Seq<WindowId>, infos: Seq<WindowInfo>) -> Option<WindowId> {
    let active = active_windows(ids, infos);
    if active.len() == 0 {
        None
    } else {
        Some(active[0])
    }
}

/// Pick and set the focus of a workspace that was just switched to: the window
/// that had it, or else the first that is not minimised.
pub open spec fn settle_outcome(s: ManagerState, infos: Seq<WindowInfo>, ws: usize) -> Outcome {
    let w = s.workspaces[ws as int];
    let focused = if w.focused is None {
        first_active(w.windows, infos)
    } else {
        w.focused
    };
    let settled = s.with_ws(ws as int, WorkspaceView { focused, ..w });
    match focused {
        Some(id) => {
            let o = focus_window(settled, id, ws);
            Outcome { steps: o.steps.push(Step::Broadcast), ..o }
        },
        None => Outcome { state: settled, steps: seq![Step::Broadcast] },
    }
}

/// The windows among `ids` that are not minimised.
pub fn active(ids: &Vec<WindowId>, infos: &Vec<WindowInfo>) -> (r: Vec<WindowId>)
    ensures
        r@ == active_windows(ids@, infos@),
{
    let mut r: Vec<WindowId> = Vec::new();
    let mut i: usize = 0;
    proof {
        reveal(Seq::filter);
    }
    while i < ids.len()
        invariant
            i <= ids@.len(),
            r@ == active_windows(ids@.take(i as int), infos@),
        decreases ids@.len() - i,
    {
        proof {
            reveal(Seq::filter);
            assert(ids@.take(i + 1).drop_last() =~= ids@.take(i as int));
            assert(ids@.take(i + 1).last() == ids@[i as int]);
        }
        let id = ids[i];
        if !is_minimized(infos, id) {
            r.push(id);
        }
        i += 1;
    }
    assert(ids@.take(i as int) =~= ids@);
    r
}

fn place(ring: &Vec<WindowId>, focused: Option<WindowId>) -> (r: usize)
    requires
        ring@.len() > 0,
    ensures
        r == place_in(ring@, focused),
        r < ring@.len(),
{
    match focused {
        Some(id) => match find_position(ring, id) {
            Some(i) => i,
            None => 0,
        },
        None => 0,
    }
}

/// The index after `pos` on a ring of `len`, or before it.
pub fn beside_index(pos: usize, len: usize, forward: bool) -> (r: usize)
    requires
        pos < len,
    ensures
        r == beside(pos as int, len as int, forward),
        r < len,
{
    if forward {
        if pos + 1 < len {
            pos + 1
        } else {
            0
        }
    } else {
        if pos == 0 {
            len - 1
        } else {
            pos - 1
        }
    }
}

/// Some monitor before the `n`-th shows workspace `i`.
pub open spec fn shown_before(monitor_ws: Seq<usize>, i: int, n: int) -> bool {
    exists|m: int| 0 <= m < n && #[trigger] monitor_ws[m] == i
}

impl Manager {
    /// Set `id` as the one focused window over all monitors, and repaint every
    /// visible workspace.
    pub fn set_global_focus(&mut self, id: WindowId, ws: usize) -> (r: Vec<Step>)
        requires
            old(self)@.wf(),
            ws < old(self).workspaces@.len(),
        ensures
            reacts(
                *old(self),
                *final(self),
                r@,
                (Outcome {
                    state: old(self)@.focusing(id, ws as int),
                    steps: old(self)@.focusing(id, ws as int).focus_steps(id, ws as int),
                }),
            ),
            final(self)@.wf(),
    {
        let ghost start = self@;
        let ghost end = self@.focusing(id, ws as int);
        let n = self.monitor_ws.len();
        let mut m: usize = 0;
        while m < n
            invariant
                m <= n,
                n == start.monitor_ws.len(),
                start.wf(),
                end == start.focusing(id, ws as int),
                self@ == (ManagerState { workspaces: self@.workspaces, ..start }),
                self@.workspaces.len() == start.workspaces.len(),
                self.config == old(self).config,
                self.bindings == old(self).bindings,
                forall|i: int|
                    0 <= i < start.workspaces.len() ==> (#[trigger] self@.workspaces[i]) == (
                    if shown_before(start.monitor_ws, i, m as int) {
                        WorkspaceView {
                            focused: if i == ws {
                                Some(id)
                            } else {
                                None
                            },
                            ..start.workspaces[i]
                        }
                    } else {
                        start.workspaces[i]
                    }),
            decreases n - m,
        {
            let ghost before = self@;
            let i = self.monitor_ws[m];
            assert(start.monitor_ws[m as int] < start.workspaces.len());
            self.workspaces[i].focused = if i == ws {
                Some(id)
            } else {
                None
            };
            proof {
                assert forall|j: int| 0 <= j < start.workspaces.len() implies (
                #[trigger] self@.workspaces[j]) == (if shown_before(
                    start.monitor_ws,
                    j,
                    m + 1,
                ) {
                    WorkspaceView {
                        focused: if j == ws {
                            Some(id)
                        } else {
                            None
                        },
                        ..start.workspaces[j]
                    }
                } else {
                    start.workspaces[j]
                }) by {
                    let had = before.workspaces[j];
                    if j == i {
                        assert(start.monitor_ws[m as int] == j);
                        assert(self@.workspaces[j] == WorkspaceView {
                            focused: self@.workspaces[j].focused,
                            ..had
                        });
                    } else if shown_before(start.monitor_ws, j, m as int) {
                        let k = choose|k: int| 0 <= k < m && #[trigger] start.monitor_ws[k] == j;
                        assert(start.monitor_ws[k] == j);
                        assert(self@.workspaces[j] == had);
                    } else if shown_before(start.monitor_ws, j, m + 1) {
                        let k = choose|k: int| 0 <= k < m + 1 && #[trigger] start.monitor_ws[k] == j;
                        assert(k < m);
                    } else {
                        assert(self@.workspaces[j] == had);
                    }
                }
            }
            m += 1;
        }
        assert(self@.workspaces =~= end.workspaces) by {
            assert forall|i: int| 0 <= i < start.workspaces.len() implies self@.workspaces[i]
                == #[trigger] end.workspaces[i] by {
                assert(shown_before(start.monitor_ws, i, n as int) == start.visible(i));
            }
        }
        assert(self@ == end);
        let mut steps: Vec<Step> = Vec::new();
        let ghost all = Seq::new(
            end.monitor_ws.len(),
            |k: int| end.borders(end.monitor_ws[k]),
        );
        m = 0;
        while m < n
            invariant
                m <= n,
                n == end.monitor_ws.len(),
                self@ == end,
                end.wf(),
                all == Seq::new(end.monitor_ws.len(), |k: int| end.borders(end.monitor_ws[k])),
                steps@ == all.take(m as int),
            decreases n - m,
        {
            let i = self.monitor_ws[m];
            assert(end.monitor_ws[m as int] < end.workspaces.len());
            steps.push(Step::Borders { ws: i, focused: self.workspaces[i].focused });
            assert(all.take(m + 1) =~= all.take(m as int).push(all[m as int]));
            m += 1;
        }
        assert(all.take(n as int) =~= all);
        if self.workspaces[ws].layout == LayoutKind::Monocle {
            steps.push(Step::Do(Command::Raise { id }));
        }
        assert(steps@ =~= end.focus_steps(id, ws as int));
        steps
    }

    /// Give a window the focus, and tell it so.
    pub fn give_focus(&mut self, id: WindowId, ws: usize) -> (r: Vec<Step>)
        requires
            old(self)@.wf(),
            ws < old(self).workspaces@.len(),
        ensures
            reacts(*old(self), *final(self), r@, focus_window(old(self)@, id, ws)),
            final(self)@.wf(),
    {
        let mut steps = self.set_global_focus(id, ws);
        steps.push(Step::Do(Command::Focus { id }));
        steps
    }

    /// Move the focus to the next window over all monitors, or to the previous.
    pub fn move_focus(&mut self, forward: bool, infos: &Vec<WindowInfo>) -> (r: Vec<Step>)
        requires
            old(self)@.wf(),
        ensures
            reacts(*old(self), *final(self), r@, focus_outcome(old(self)@, infos@, forward)),
            final(self)@.wf(),
    {
        let mut ring: Vec<WindowId> = Vec::new();
        let mut mons: Vec<usize> = Vec::new();
        let n = self.monitor_ws.len();
        let mut m: usize = 0;
        while m < n
            invariant
                m <= n,
                n == self.monitor_ws@.len(),
                self@.wf(),
                *self == *old(self),
                ring@ == focus_ring(self@, infos@, m as int),
                mons@ == ring_monitors(self@, infos@, m as int),
                ring@.len() == mons@.len(),
                forall|i: int| 0 <= i < mons@.len() ==> (#[trigger] mons@[i]) < n,
            decreases n - m,
        {
            let i = self.monitor_ws[m];
            assert(self@.monitor_ws[m as int] < self@.workspaces.len());
            let mut here = active(&self.workspaces[i].windows, infos);
            let ghost seen = mons@;
            let k = here.len();
            let mut j: usize = 0;
            while j < k
                invariant
                    j <= k,
                    m < n,
                    mons@ == seen + Seq::new(j as nat, |i: int| m),
                decreases k - j,
            {
                mons.push(m);
                j += 1;
                assert(mons@ =~= seen + Seq::new(j as nat, |i: int| m));
            }
            ring.append(&mut here);
            m += 1;
            assert(ring@ =~= focus_ring(self@, infos@, m as int));
            assert(mons@ =~= ring_monitors(self@, infos@, m as int));
        }
        if ring.len() == 0 {
            return Vec::new();
        }
        let shown = self.monitor_ws[self.focused_mon];
        assert(self@.monitor_ws[self.focused_mon as int] < self@.workspaces.len());
        let pos = place(&ring, self.workspaces[shown].focused);
        let at = beside_index(pos, ring.len(), forward);
        let mon = mons[at];
        let ws = self.monitor_ws[mon];
        assert(self@.monitor_ws[mon as int] < self@.workspaces.len());
        self.focused_mon = mon;
        self.give_focus(ring[at], ws)
    }

    /// Pick and set the focus of a workspace that was just switched to.
    pub fn settle_focus(&mut self, ws: usize, infos: &Vec<WindowInfo>) -> (r: Vec<Step>)
        requires
            old(self)@.wf(),
            ws < old(self).workspaces@.len(),
        ensures
            reacts(*old(self), *final(self), r@, settle_outcome(old(self)@, infos@, ws)),
            final(self)@.wf(),
    {
        let ghost start = self@;
        let focused = match self.workspaces[ws].focused {
            Some(id) => Some(id),
            None => {
                let ids = active(&self.workspaces[ws].windows, infos);
                if ids.len() == 0 {
                    None
                } else {
                    Some(ids[0])
                }
            },
        };
        self.workspaces[ws].focused = focused;
        assert(self@.workspaces =~= start.with_ws(
            ws as int,
            WorkspaceView { focused, ..start.workspaces[ws as int] },
        ).workspaces);
        match focused {
            Some(id) => {
                let mut steps = self.give_focus(id, ws);
                steps.push(Step::Broadcast);
                steps
            },
            None => {
                let mut steps: Vec<Step> = Vec::new();
                steps.push(Step::Broadcast);
                steps
            },
        }
    }
}

} // verus!
