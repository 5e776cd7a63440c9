//! What taking over a new configuration keeps and changes.

use crate::layout::LayoutKind;
use crate::manager::actions::leave_command;
use crate::manager::laws::{held, same_windows, sound};
use crate::manager::reload::{
    gathered, kept_workspace, lemma_even_share, lemma_reloaded_monitor, lemma_reloaded_wf,
    reload_outcome, reloaded, screen_steps, Arrangement,
};
use crate::manager::state::{even_share, first_ws, initial_state, ManagerState};
use crate::manager::step::{Command, Step};
use crate::window::{Rect, WindowId};
use crate::workspace::WorkspaceView;
use vstd::prelude::*;

verus! {

/// Two workspaces without a common window, joined.
proof fn lemma_joined(w: WorkspaceView, gone: WorkspaceView)
    requires
        w.sound(),
        gone.sound(),
        forall|id: WindowId|
            !(#[trigger] w.windows.contains(id) && #[trigger] gone.windows.contains(id)),
    ensures
        w.joined(gone).sound(),
        forall|id: WindowId| #[trigger]
            w.joined(gone).windows.contains(id) <==> w.windows.contains(id)
                || gone.windows.contains(id),
{
    let t = w.joined(gone);
    assert forall|id: WindowId| #[trigger] t.windows.contains(id) <==> w.windows.contains(id)
        || gone.windows.contains(id) by {
        if w.windows.contains(id) {
            let k = choose|k: int| 0 <= k < w.windows.len() && w.windows[k] == id;
            assert(t.windows[k] == id);
        }
        if gone.windows.contains(id) {
            let k = choose|k: int| 0 <= k < gone.windows.len() && gone.windows[k] == id;
            assert(t.windows[w.windows.len() + k] == id);
        }
    }
    assert forall|i: int, j: int|
        0 <= i < t.windows.len() && 0 <= j < t.windows.len() && i != j implies t.windows[i]
        != t.windows[j] by {
        let n = w.windows.len() as int;
        if i < n && j >= n {
            assert(w.windows.contains(t.windows[i]));
            assert(gone.windows.contains(gone.windows[j - n]));
        } else if j < n && i >= n {
            assert(w.windows.contains(t.windows[j]));
            assert(gone.windows.contains(gone.windows[i - n]));
        } else if i >= n {
            assert(gone.windows[i - n] != gone.windows[j - n]);
        }
    }
    assert forall|id: WindowId| #[trigger] t.is_full(id) implies t.windows.contains(id) by {
        assert(w.is_full(id) || gone.is_full(id));
    }
}

/// What several workspaces without common windows come to, gathered in one.
proof fn lemma_gathered(w: WorkspaceView, ws: Seq<WorkspaceView>, from: int, to: int)
    requires
        0 <= from,
        to <= ws.len(),
        w.sound(),
        forall|i: int| from <= i < to ==> (#[trigger] ws[i]).sound(),
        forall|i: int, id: WindowId|
            from <= i < to ==> !(#[trigger] ws[i].windows.contains(id) && w.windows.contains(id)),
        forall|i: int, j: int, id: WindowId|
            #![trigger ws[i].windows.contains(id), ws[j].windows.contains(id)]
            from <= i < to && from <= j < to && ws[i].windows.contains(id)
                && ws[j].windows.contains(id) ==> i == j,
    ensures
        gathered(w, ws, from, to).sound(),
        forall|id: WindowId| #[trigger]
            gathered(w, ws, from, to).windows.contains(id) <==> w.windows.contains(id) || exists|
                i: int,
            |
                from <= i < to && (#[trigger] ws[i]).windows.contains(id),
    decreases to - from,
{
    if to > from {
        let g = gathered(w, ws, from, to - 1);
        let gone = ws[to - 1];
        lemma_gathered(w, ws, from, to - 1);
        assert forall|id: WindowId| !(#[trigger] g.windows.contains(id)
            && #[trigger] gone.windows.contains(id)) by {
            if g.windows.contains(id) && gone.windows.contains(id) {
                assert(ws[to - 1].windows.contains(id));
                if !w.windows.contains(id) {
                    let i = choose|i: int|
                        from <= i < to - 1 && (#[trigger] ws[i]).windows.contains(id);
                    assert(ws[i].windows.contains(id));
                }
            }
        }
        lemma_joined(g, gone);
        let t = gathered(w, ws, from, to);
        assert forall|id: WindowId| #[trigger] t.windows.contains(id) <==> w.windows.contains(id)
            || exists|i: int| from <= i < to && (#[trigger] ws[i]).windows.contains(id) by {
            if gone.windows.contains(id) {
                assert(ws[to - 1].windows.contains(id));
            }
            if g.windows.contains(id) && !w.windows.contains(id) {
                let i = choose|i: int|
                    from <= i < to - 1 && (#[trigger] ws[i]).windows.contains(id);
                assert(ws[i].windows.contains(id));
            }
            if exists|i: int| from <= i < to && (#[trigger] ws[i]).windows.contains(id) {
                let i = choose|i: int| from <= i < to && (#[trigger] ws[i]).windows.contains(id);
                if i < to - 1 {
                    assert(g.windows.contains(id));
                }
            }
        }
    }
}

/// Gathering windows changes neither the name nor the layout, and puts them
/// after those that were there.
proof fn lemma_gathered_look(w: WorkspaceView, ws: Seq<WorkspaceView>, from: int, to: int)
    ensures
        ({
            let g = gathered(w, ws, from, to);
            &&& g.name == w.name
            &&& g.layout == w.layout
            &&& w.windows.is_prefix_of(g.windows)
            &&& w.focused is Some ==> g.focused == w.focused
        }),
    decreases to - from,
{
    if to > from {
        lemma_gathered_look(w, ws, from, to - 1);
        let g = gathered(w, ws, from, to - 1);
        assert(w.windows =~= (g.windows + ws[to - 1].windows).subrange(
            0,
            w.windows.len() as int,
        )) by {
            assert(w.windows == g.windows.subrange(0, w.windows.len() as int));
        }
    } else {
        assert(w.windows =~= w.windows.subrange(0, w.windows.len() as int));
    }
}

/// The workspaces are afterwards those that are configured: as many, with those
/// names.  A workspace that was there keeps its windows in order and its focus;
/// all but the last keep exactly theirs.  A new one starts empty, with the
/// default layout.  A changed default layout applies to all, an unchanged one
/// leaves every layout as it is.
pub proof fn reloading_follows_the_configuration(
    s: ManagerState,
    before: LayoutKind,
    p: Arrangement,
)
    requires
        p.names.len() >= 1,
    ensures
        ({
            let t = reloaded(s, before, p);
            &&& t.workspaces.len() == p.names.len()
            &&& forall|i: int|
                0 <= i < p.names.len() ==> (#[trigger] t.workspaces[i]).name == p.names[i]
            &&& p.layout != before ==> forall|i: int|
                0 <= i < p.names.len() ==> (#[trigger] t.workspaces[i]).layout == p.layout
            &&& forall|i: int|
                0 <= i < p.names.len() && i < s.workspaces.len() ==> {
                    &&& s.workspaces[i].windows.is_prefix_of((#[trigger] t.workspaces[i]).windows)
                    &&& s.workspaces[i].focused is Some ==> t.workspaces[i].focused
                        == s.workspaces[i].focused
                    &&& p.layout == before ==> t.workspaces[i].layout == s.workspaces[i].layout
                }
            &&& forall|i: int|
                0 <= i < p.names.len() - 1 && i < s.workspaces.len() ==> (
                #[trigger] t.workspaces[i]).windows == s.workspaces[i].windows
            &&& forall|i: int|
                s.workspaces.len() <= i < p.names.len() ==> (#[trigger] t.workspaces[i]).windows
                    == Seq::<WindowId>::empty() && t.workspaces[i].layout == p.layout
            &&& t.animations == p.animations && t.taskbar == p.taskbar
        }),
{
    let t = reloaded(s, before, p);
    let n = p.names.len() as int;
    assert forall|i: int| 0 <= i < n implies {
        let u = #[trigger] t.workspaces[i];
        &&& u.name == p.names[i]
        &&& p.layout != before ==> u.layout == p.layout
        &&& i < s.workspaces.len() ==> s.workspaces[i].windows.is_prefix_of(u.windows) && (
        s.workspaces[i].focused is Some ==> u.focused == s.workspaces[i].focused) && (p.layout
            == before ==> u.layout == s.workspaces[i].layout)
    } by {
        if i < s.workspaces.len() {
            let w = kept_workspace(s.workspaces[i], p.names[i], before, p.layout);
            assert(w.windows =~= w.windows.subrange(0, w.windows.len() as int));
            lemma_gathered_look(w, s.workspaces, n, s.workspaces.len() as int);
        }
    }
}

/// No window is lost, invented or put in two places by a new configuration.
pub proof fn reloading_keeps_windows(s: ManagerState, before: LayoutKind, p: Arrangement)
    requires
        sound(s),
        p.names.len() >= 1,
        p.names.len() + s.monitor_ws.len() < usize::MAX,
    ensures
        sound(reloaded(s, before, p)),
        same_windows(s, reloaded(s, before, p)),
{
    let t = reloaded(s, before, p);
    let ws = s.workspaces;
    let n = p.names.len() as int;
    lemma_reloaded_wf(s, before, p);
    if n - 1 < ws.len() {
        let w = kept_workspace(ws[n - 1], p.names[n - 1], before, p.layout);
        assert(ws[n - 1].sound());
        assert(w.sound()) by {
            assert forall|id: WindowId| #[trigger] w.is_full(id) implies w.windows.contains(
                id,
            ) by {
                assert(ws[n - 1].is_full(id));
            }
        }
        assert forall|i: int, id: WindowId| n <= i < ws.len() implies !(
        #[trigger] ws[i].windows.contains(id) && w.windows.contains(id)) by {
            if ws[i].windows.contains(id) && w.windows.contains(id) {
                assert(ws[n - 1].windows.contains(id));
            }
        }
        lemma_gathered(w, ws, n, ws.len() as int);
        assert(t.workspaces[n - 1] == gathered(w, ws, n, ws.len() as int));
    }
    assert forall|i: int| 0 <= i < n implies (#[trigger] t.workspaces[i]).sound() by {
        if i < n - 1 && i < ws.len() {
            assert(ws[i].sound());
            assert forall|id: WindowId| #[trigger] t.workspaces[i].is_full(
                id,
            ) implies t.workspaces[i].windows.contains(id) by {
                assert(ws[i].is_full(id));
            }
        }
    }
    // A window stands where it stood, or in the last workspace if its own is gone.
    assert forall|i: int, id: WindowId|
        0 <= i < n && #[trigger] t.workspaces[i].windows.contains(id) implies exists|k: int|
        0 <= k < ws.len() && (#[trigger] ws[k]).windows.contains(id) && (if k < n {
            k
        } else {
            n - 1
        }) == i by {
        if i < n - 1 {
            assert(i < ws.len());
            assert(ws[i].windows.contains(id));
        } else {
            assert(n - 1 < ws.len());
            if ws[n - 1].windows.contains(id) {
                assert(ws[n - 1].windows.contains(id));
            } else {
                let k = choose|k: int| n <= k < ws.len() && (#[trigger] ws[k]).windows.contains(id);
                assert(ws[k].windows.contains(id));
            }
        }
    }
    assert forall|id: WindowId| #[trigger] held(t, id) <==> held(s, id) by {
        if held(t, id) {
            let i = choose|i: int|
                0 <= i < t.workspaces.len() && (#[trigger] t.workspaces[i]).windows.contains(id);
            assert(t.workspaces[i].windows.contains(id));
        }
        if held(s, id) {
            let k = choose|k: int| 0 <= k < ws.len() && (#[trigger] ws[k]).windows.contains(id);
            assert(ws[k].windows.contains(id));
            let i = if k < n {
                k
            } else {
                n - 1
            };
            assert(t.workspaces[i].windows.contains(id));
        }
    }
    assert forall|i: int, j: int, id: WindowId|
        #![trigger t.workspaces[i].windows.contains(id), t.workspaces[j].windows.contains(id)]
        0 <= i < n && 0 <= j < n && t.workspaces[i].windows.contains(id)
            && t.workspaces[j].windows.contains(id) implies i == j by {
        let a = choose|k: int|
            0 <= k < ws.len() && (#[trigger] ws[k]).windows.contains(id) && (if k < n {
                k
            } else {
                n - 1
            }) == i;
        let b = choose|k: int|
            0 <= k < ws.len() && (#[trigger] ws[k]).windows.contains(id) && (if k < n {
                k
            } else {
                n - 1
            }) == j;
        assert(ws[a].windows.contains(id) && ws[b].windows.contains(id));
    }
}

/// The workspaces and monitors are as a configuration has them: the names and
/// the shares are its own, and each monitor shows a workspace of its share, or
/// the one that it would show first.
pub open spec fn applied(s: ManagerState, p: Arrangement) -> bool {
    let n = p.names.len() as int;
    let share = even_share(n, s.monitor_ws.len() as int);
    &&& s.workspaces.len() == n
    &&& forall|i: int| 0 <= i < n ==> (#[trigger] s.workspaces[i]).name == p.names[i]
    &&& s.ws_per_mon == share
    &&& forall|m: int|
        0 <= m < s.monitor_ws.len() ==> (#[trigger] s.monitor_ws[m]) as int / share == m
            || s.monitor_ws[m] == first_ws(m, share, n)
    &&& s.animations == p.animations && s.taskbar == p.taskbar
}

/// A configuration that was taken over applies.
pub proof fn reloading_applies(s: ManagerState, before: LayoutKind, p: Arrangement)
    requires
        s.wf(),
        p.names.len() >= 1,
        p.names.len() + s.monitor_ws.len() < usize::MAX,
    ensures
        applied(reloaded(s, before, p), p),
{
    let t = reloaded(s, before, p);
    let n = p.names.len() as int;
    let share = even_share(n, s.monitor_ws.len() as int);
    reloading_follows_the_configuration(s, before, p);
    lemma_reloaded_wf(s, before, p);
    lemma_even_share(n, s.monitor_ws.len() as int);
    assert forall|m: int| 0 <= m < t.monitor_ws.len() implies (
    #[trigger] t.monitor_ws[m]) as int / share == m || t.monitor_ws[m] == first_ws(
        m,
        share,
        n,
    ) by {
        lemma_reloaded_monitor(s.monitor_ws[m], m, share, n);
    }
}

/// The configuration that the manager was started with applies.
pub proof fn startup_applies(p: Arrangement, rects: Seq<Rect>)
    requires
        p.names.len() >= 1,
        p.names.len() + rects.len() < usize::MAX,
    ensures
        applied(initial_state(p.names, p.layout, rects, p.animations, p.taskbar), p),
{
    let s = initial_state(p.names, p.layout, rects, p.animations, p.taskbar);
    let n = p.names.len() as int;
    let share = even_share(n, s.monitor_ws.len() as int);
    lemma_even_share(n, s.monitor_ws.len() as int);
    assert forall|m: int| 0 <= m < s.monitor_ws.len() implies (#[trigger] s.monitor_ws[m])
        == first_ws(m, share, n) by {
        lemma_reloaded_monitor(0, m, share, n);
    }
}

/// Reading a configuration again that applies already changes nothing.
pub proof fn reloading_what_applies_changes_nothing(s: ManagerState, p: Arrangement)
    requires
        s.wf(),
        applied(s, p),
    ensures
        reloaded(s, p.layout, p) == s,
{
    let t = reloaded(s, p.layout, p);
    let n = p.names.len() as int;
    let share = even_share(n, s.monitor_ws.len() as int);
    assert forall|i: int| 0 <= i < n implies #[trigger] t.workspaces[i] == s.workspaces[i] by {}
    assert(t.workspaces =~= s.workspaces);
    assert forall|m: int| 0 <= m < s.monitor_ws.len() implies #[trigger] t.monitor_ws[m]
        == s.monitor_ws[m] by {
        assert(s.monitor_ws[m] < s.workspaces.len());
    }
    assert(t.monitor_ws =~= s.monitor_ws);
}

/// Every monitor that owns a workspace shows one of its own.
pub proof fn reloaded_monitors_show_their_own(s: ManagerState, before: LayoutKind, p: Arrangement)
    requires
        s.wf(),
        p.names.len() >= 1,
        p.names.len() + s.monitor_ws.len() < usize::MAX,
    ensures
        ({
            let t = reloaded(s, before, p);
            forall|m: int|
                0 <= m < t.monitor_ws.len() && m * t.ws_per_mon < p.names.len() ==> t.owner(
                    (#[trigger] t.monitor_ws[m]) as int,
                ) == m
        }),
{
    let t = reloaded(s, before, p);
    let n = p.names.len() as int;
    let share = even_share(n, s.monitor_ws.len() as int);
    lemma_even_share(n, s.monitor_ws.len() as int);
    lemma_reloaded_wf(s, before, p);
    assert forall|m: int|
        0 <= m < t.monitor_ws.len() && m * t.ws_per_mon < p.names.len() implies t.owner(
        (#[trigger] t.monitor_ws[m]) as int,
    ) == m by {
        lemma_reloaded_monitor(s.monitor_ws[m], m, share, n);
        assert((m * share) / share == m) by (nonlinear_arith)
            requires
                share >= 1,
        ;
    }
}

/// Every window of a workspace that is shown is put on the screen, and every
/// window of one that is not leaves it the way the taskbar mode asks for.
pub proof fn reloading_shows_and_hides_windows(
    s: ManagerState,
    before: LayoutKind,
    p: Arrangement,
    i: int,
    id: WindowId,
)
    requires
        0 <= i < p.names.len(),
        reloaded(s, before, p).workspaces[i].windows.contains(id),
    ensures
        ({
            let o = reload_outcome(s, before, p);
            o.steps.contains(
                Step::Do(
                    if o.state.visible(i) {
                        Command::Show { id }
                    } else {
                        leave_command(p.taskbar, id)
                    },
                ),
            )
        }),
{
    let o = reload_outcome(s, before, p);
    let t = o.state;
    let n = p.names.len() as int;
    let step = Step::Do(
        if t.visible(i) {
            Command::Show { id }
        } else {
            leave_command(p.taskbar, id)
        },
    );
    lemma_screen_steps(t, i, id, n);
    let shown = screen_steps(t, n);
    let k = choose|k: int| 0 <= k < shown.len() && shown[k] == step;
    assert(o.steps[k] == step);
}

proof fn lemma_screen_steps(s: ManagerState, i: int, id: WindowId, n: int)
    requires
        0 <= i < n <= s.workspaces.len(),
        s.workspaces[i].windows.contains(id),
    ensures
        screen_steps(s, n).contains(
            Step::Do(
                if s.visible(i) {
                    Command::Show { id }
                } else {
                    leave_command(s.taskbar, id)
                },
            ),
        ),
    decreases n,
{
    let step = Step::Do(
        if s.visible(i) {
            Command::Show { id }
        } else {
            leave_command(s.taskbar, id)
        },
    );
    let head = screen_steps(s, n - 1);
    let all = screen_steps(s, n);
    if i < n - 1 {
        lemma_screen_steps(s, i, id, n - 1);
        let k = choose|k: int| 0 <= k < head.len() && head[k] == step;
        assert(all[k] == step);
    } else {
        let ids = s.workspaces[i].windows;
        let k = choose|k: int| 0 <= k < ids.len() && ids[k] == id;
        assert(all[head.len() + k] == step);
    }
}

} // verus!
