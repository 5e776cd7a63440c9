//! Which event and which action lead where, and on which area workspaces are
//! laid out.

use crate::action::Action;
use crate::event::Event;
use crate::hotkey::Binding;
use crate::manager::actions::{
    action_outcome, float_outcome, fullscreen_outcome, kill_outcome, move_outcome, quit_steps,
    send_outcome, set_layout_outcome, swap_in_steps, switch_outcome,
};
use crate::manager::events::{
    area_outcome, created_outcome, destroyed_outcome, event_outcome, focused_outcome,
    minimize_outcome, moved_outcome, Facts,
};
use crate::manager::focus::focus_outcome;
use crate::manager::info::WindowInfo;
use crate::manager::laws::lemma_owner;
use crate::manager::state::{area_of_ws, ManagerState};
use crate::manager::step::{Command, Step};
use crate::window::{Rect, WindowId};
use vstd::prelude::*;

verus! {

// ── Areas ────────────────────────────────────────────────────────────────────

/// The monitor that owns a workspace is the one in whose share it lies; what is
/// beyond all shares belongs to the last monitor.
pub proof fn workspaces_lie_in_their_owners_share(s: ManagerState, ws: int, m: int)
    requires
        s.wf(),
        0 <= m < s.monitor_ws.len(),
        m * s.ws_per_mon <= ws,
        ws < m * s.ws_per_mon + s.ws_per_mon || m == s.monitor_ws.len() - 1,
    ensures
        s.owner(ws) == m,
{
    let share = s.ws_per_mon as int;
    let q = ws / share;
    assert(m * share >= 0) by (nonlinear_arith)
        requires
            m >= 0,
            share >= 1,
    ;
    assert(q >= m) by (nonlinear_arith)
        requires
            q == ws / share,
            share >= 1,
            m * share <= ws,
    ;
    if ws < m * share + share {
        assert(q <= m) by (nonlinear_arith)
            requires
                q == ws / share,
                share >= 1,
                ws < m * share + share,
        ;
    }
}

/// A workspace is laid out on the area of the monitor that owns it; without any
/// monitor area, on a screen of 1920 by 1080 pixels.
pub proof fn workspaces_use_their_owners_area(s: ManagerState, ws: int)
    requires
        s.wf(),
        0 <= ws < s.workspaces.len(),
    ensures
        s.monitor_rects.len() == s.monitor_ws.len() ==> area_of_ws(
            ws,
            s.ws_per_mon as int,
            s.monitor_rects,
        ) == s.monitor_rects[s.owner(ws)],
        s.monitor_rects.len() == 0 ==> area_of_ws(ws, s.ws_per_mon as int, s.monitor_rects) == (
        Rect { x: 0, y: 0, width: 1920, height: 1080 }),
{
    lemma_owner(s, ws);
    let q = ws / s.ws_per_mon as int;
    assert(q >= 0) by (nonlinear_arith)
        requires
            q == ws / s.ws_per_mon as int,
            ws >= 0,
            s.ws_per_mon >= 1,
    ;
}

// ── Switching, in steps ──────────────────────────────────────────────────────

/// A switch lays out the workspace that it shows on the area of its monitor and
/// paints its borders.
pub proof fn switching_lays_out_on_the_owners_area(s: ManagerState, n: u8, animate: bool)
    requires
        s.wf(),
        s.monitor_rects.len() == s.monitor_ws.len(),
        1 <= n <= s.workspaces.len(),
        s.monitor_ws[s.owner(n - 1)] != n - 1,
    ensures
        ({
            let to = (n - 1) as usize;
            let steps = switch_outcome(s, n, animate).steps;
            &&& steps.contains(Step::Layout { ws: to, area: s.monitor_rects[s.owner(n - 1)] })
            &&& steps.contains(
                Step::Borders { ws: to, focused: s.workspaces[n - 1].focused },
            )
        }),
{
    lemma_owner(s, n - 1);
    let to = (n - 1) as usize;
    let o = switch_outcome(s, n, animate);
    let k = s.workspaces[n - 1].windows.len() as int * (if animate {
        2int
    } else {
        1
    });
    assert(o.steps[k] == Step::Layout { ws: to, area: s.monitor_rects[s.owner(n - 1)] });
    assert(o.steps[k + 1] == Step::Borders { ws: to, focused: s.workspaces[n - 1].focused });
}

/// After an animated switch no window is left transparent: every window of both
/// workspaces is made opaque again, after the fading.
pub proof fn switching_leaves_no_window_transparent(
    s: ManagerState,
    from: usize,
    to: usize,
    area: Rect,
    id: WindowId,
)
    requires
        s.workspaces[from as int].windows.contains(id) || s.workspaces[to as int].windows.contains(
            id,
        ),
    ensures
        ({
            let steps = swap_in_steps(s, from, to, area, true);
            exists|i: int, j: int|
                0 <= i < j < steps.len() && #[trigger] steps[i] == (Step::Crossfade {
                    outgoing: from,
                    incoming: to,
                }) && #[trigger] steps[j] == Step::Do(Command::ClearAlpha { id })
        }),
{
    let steps = swap_in_steps(s, from, to, area, true);
    let outgoing = s.workspaces[from as int].windows;
    let incoming = s.workspaces[to as int].windows;
    let a = incoming.len() as int;
    let b = outgoing.len() as int;
    let i = a + a + 2;
    assert(steps[i] == Step::Crossfade { outgoing: from, incoming: to });
    if outgoing.contains(id) {
        let k = choose|k: int| 0 <= k < outgoing.len() && outgoing[k] == id;
        let j = i + 1 + b + k;
        assert(steps[j] == Step::Do(Command::ClearAlpha { id }));
    } else {
        let k = choose|k: int| 0 <= k < incoming.len() && incoming[k] == id;
        let j = i + 1 + b + b + k;
        assert(steps[j] == Step::Do(Command::ClearAlpha { id }));
    }
}

// ── Actions and events ───────────────────────────────────────────────────────

/// Next means forward and previous backward, in focusing and in moving alike, and
/// a number goes to the action that asks for it.
pub proof fn actions_lead_where_they_say(
    s: ManagerState,
    infos: Seq<WindowInfo>,
    animate: bool,
    n: u8,
)
    ensures
        action_outcome(s, Action::FocusNext, infos, animate) == focus_outcome(s, infos, true),
        action_outcome(s, Action::FocusPrev, infos, animate) == focus_outcome(s, infos, false),
        action_outcome(s, Action::MoveNext, infos, animate) == move_outcome(
            s,
            infos,
            true,
            animate,
        ),
        action_outcome(s, Action::MovePrev, infos, animate) == move_outcome(
            s,
            infos,
            false,
            animate,
        ),
        action_outcome(s, Action::KillFocused, infos, animate) == kill_outcome(s),
        action_outcome(s, Action::ToggleFloat, infos, animate) == float_outcome(s, infos),
        action_outcome(s, Action::ToggleFullscreen, infos, animate) == fullscreen_outcome(
            s,
            infos,
            animate,
        ),
        action_outcome(s, Action::SwitchWorkspace(n), infos, animate) == switch_outcome(
            s,
            n,
            animate,
        ),
        action_outcome(s, Action::MoveFocusedToWorkspace(n), infos, animate) == send_outcome(s, n),
        action_outcome(s, Action::ReloadConfig, infos, animate).steps == seq![Step::ReloadConfig],
        action_outcome(s, Action::ReloadConfig, infos, animate).state == s,
        action_outcome(s, Action::Quit, infos, animate).steps == quit_steps(infos),
        forall|kind: crate::layout::LayoutKind| #[trigger]
            action_outcome(s, Action::SetLayout(kind), infos, animate) == set_layout_outcome(
                s,
                kind,
            ),
{
}

/// A fired keybinding performs the action of its declaration, animated only
/// where both the configuration and the system allow it; an unknown one does
/// nothing.
pub proof fn keys_perform_their_action(
    s: ManagerState,
    bindings: Seq<Binding>,
    key: crate::event::KeybindingId,
    facts: Facts,
    infos: Seq<WindowInfo>,
)
    ensures
        ({
            let o = event_outcome(s, bindings, Event::Keybinding(key), facts, infos);
            &&& key.0 < bindings.len() ==> o == action_outcome(
                s,
                bindings[key.0 as int].action,
                infos,
                s.animations && facts.system_animations,
            )
            &&& key.0 >= bindings.len() ==> o.state == s && o.steps.len() == 0
        }),
{
}

/// Each event of a window is handled as what it is, for that window and with the
/// facts that came along.
pub proof fn events_lead_where_they_say(
    s: ManagerState,
    bindings: Seq<Binding>,
    id: WindowId,
    facts: Facts,
    infos: Seq<WindowInfo>,
)
    ensures
        event_outcome(s, bindings, Event::WindowCreated(id), facts, infos) == created_outcome(
            s,
            id,
            facts.window_area.x,
        ),
        event_outcome(s, bindings, Event::WindowDestroyed(id), facts, infos) == destroyed_outcome(
            s,
            id,
        ),
        event_outcome(s, bindings, Event::WindowFocused(id), facts, infos) == focused_outcome(
            s,
            id,
            s.animations && facts.system_animations,
        ),
        event_outcome(s, bindings, Event::WindowMoved { id }, facts, infos) == moved_outcome(
            s,
            id,
            infos,
        ),
        event_outcome(s, bindings, Event::WindowMinimizeChanged { id }, facts, infos)
            == minimize_outcome(s, id),
        event_outcome(s, bindings, Event::WorkAreaChanged, facts, infos) == area_outcome(
            s,
            facts.monitor_rects@,
        ),
        event_outcome(s, bindings, Event::Quit, facts, infos).steps == quit_steps(infos),
{
}

/// A window that was resized keeps its size: no workspace is laid out and nothing
/// changes but its border.
pub proof fn resized_windows_keep_their_size(
    s: ManagerState,
    bindings: Seq<Binding>,
    id: WindowId,
    facts: Facts,
    infos: Seq<WindowInfo>,
    outside: bool,
)
    ensures
        ({
            let event = if outside {
                Event::WindowSizeChanged { id }
            } else {
                Event::WindowResized { id }
            };
            let o = event_outcome(s, bindings, event, facts, infos);
            &&& o.state == s
            &&& forall|i: int| 0 <= i < o.steps.len() ==> #[trigger] o.steps[i] is Borders
            &&& s.monitor_ws.len() > 0 && s.workspaces[s.monitor_ws[0] as int].windows.contains(id)
                && s.monitor_ws.len() == 1 ==> o.steps == seq![
                Step::Borders {
                    ws: s.monitor_ws[0],
                    focused: s.workspaces[s.monitor_ws[0] as int].focused,
                },
            ]
        }),
{
    reveal_with_fuel(crate::manager::state::monitor_showing, 2);
}

} // verus!
