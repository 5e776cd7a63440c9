//! What a status bar can read from the state that it is sent.

use crate::action::{action_string, Action};
use crate::layout::LayoutKind;
use crate::manager::actions::switch_outcome;
use crate::manager::info::{info_of, WindowInfo};
use crate::manager::laws::lemma_owner;
use crate::manager::state::ManagerState;
use crate::manager::status::{
    escaped, focused_position, layout_name, monitor_json, monitors_json, share_end, shown_index,
    state_json, window_elements, workspace_json, workspaces_json,
};
use crate::text::{decimal, lemma_decimal_value, occurs, occurs_at, starts_with};
use crate::workspace::{lemma_position, WorkspaceView};
use vstd::prelude::*;

verus! {

/// `s` ends with `tail`.
pub open spec fn ends_with(s: Seq<char>, tail: Seq<char>) -> bool {
    occurs_at(s, tail, s.len() - tail.len())
}

proof fn lemma_tail(head: Seq<char>, tail: Seq<char>)
    ensures
        ends_with(head + tail, tail),
{
    let all = head + tail;
    assert(all.subrange(all.len() - tail.len(), all.len() as int) =~= tail);
}

proof fn lemma_occurs(head: Seq<char>, needle: Seq<char>, tail: Seq<char>)
    ensures
        occurs(head + needle + tail, needle),
{
    let all = head + needle + tail;
    assert(all.subrange(head.len() as int, (head.len() + needle.len()) as int) =~= needle);
    assert(occurs_at(all, needle, head.len() as int));
}

proof fn lemma_occurs_in(head: Seq<char>, hay: Seq<char>, tail: Seq<char>, needle: Seq<char>)
    requires
        occurs(hay, needle),
    ensures
        occurs(head + hay + tail, needle),
{
    let at = choose|at: int| #[trigger] occurs_at(hay, needle, at);
    let all = head + hay + tail;
    let k = head.len() + at;
    assert(all.subrange(k, k + needle.len()) =~= hay.subrange(at, at + needle.len()));
    assert(occurs_at(all, needle, k));
}

/// Different numbers have different renderings.
pub proof fn decimals_are_unique(a: nat, b: nat)
    requires
        decimal(a) == decimal(b),
    ensures
        a == b,
{
    lemma_decimal_value(a);
    lemma_decimal_value(b);
}

// ── The focused monitor and workspaces ───────────────────────────────────────

/// The state ends by naming the monitor that has the focus.
pub proof fn the_focused_monitor_is_named(s: ManagerState, infos: Seq<WindowInfo>)
    ensures
        ends_with(
            state_json(s, infos),
            "],\"focused\":"@ + decimal(s.focused_mon as nat) + "}}\n"@,
        ),
{
    let head = "{\"monitors\":{\"elements\":["@ + monitors_json(
        s,
        s.monitor_ws.len() as int,
        infos,
    );
    let tail = "],\"focused\":"@ + decimal(s.focused_mon as nat) + "}}\n"@;
    lemma_tail(head, tail);
    assert(state_json(s, infos) =~= head + tail);
}

/// A monitor's entry ends by naming the workspace that the monitor shows, counted
/// from the first of its own: that number and the number of the first one add up
/// to the workspace shown.
pub proof fn the_workspace_shown_is_named(
    s: ManagerState,
    infos: Seq<WindowInfo>,
    m: int,
    local: int,
)
    requires
        s.wf(),
        0 <= m < s.monitor_ws.len(),
        0 <= local < s.ws_per_mon,
        m * s.ws_per_mon + local == s.monitor_ws[m],
    ensures
        ends_with(
            monitor_json(s, m, infos),
            "],\"focused\":"@ + decimal(local as nat) + "}}"@,
        ),
{
    assert(s.monitor_ws[m] < s.workspaces.len());
    let head = "{\"name\":\"Monitor "@ + decimal((m + 1) as nat) + "\",\"index\":"@ + decimal(
        m as nat,
    ) + ",\"workspaces\":{\"elements\":["@ + workspaces_json(
        s.workspaces,
        m * s.ws_per_mon,
        share_end(s, m),
        infos,
    );
    let tail = "],\"focused\":"@ + decimal(local as nat) + "}}"@;
    lemma_tail(head, tail);
    assert(monitor_json(s, m, infos) =~= head + tail);
}

/// After a switch the entry of the monitor that owns the workspace names it, and
/// the state names that monitor.
pub proof fn a_switch_is_reported(
    s: ManagerState,
    infos: Seq<WindowInfo>,
    n: u8,
    animate: bool,
    local: int,
)
    requires
        s.wf(),
        1 <= n <= s.workspaces.len(),
        0 <= local < s.ws_per_mon,
        s.owner(n - 1) * s.ws_per_mon + local == n - 1,
        s.monitor_ws[s.owner(n - 1)] != n - 1,
    ensures
        ({
            let t = switch_outcome(s, n, animate).state;
            &&& ends_with(
                monitor_json(t, s.owner(n - 1), infos),
                "],\"focused\":"@ + decimal(local as nat) + "}}"@,
            )
            &&& ends_with(
                state_json(t, infos),
                "],\"focused\":"@ + decimal(s.owner(n - 1) as nat) + "}}\n"@,
            )
        }),
{
    lemma_owner(s, n - 1);
    let m = s.owner(n - 1);
    let t = switch_outcome(s, n, animate).state;
    assert(t.wf()) by {
        assert forall|k: int| 0 <= k < t.monitor_ws.len() implies (#[trigger] t.monitor_ws[k])
            < t.workspaces.len() by {
            if k != m {
                assert(t.monitor_ws[k] == s.monitor_ws[k]);
            }
        }
    }
    assert(t.monitor_ws[m] == n - 1);
    assert(s.monitor_ws.len() <= s.monitor_ws.len() * s.ws_per_mon) by (nonlinear_arith)
        requires
            s.ws_per_mon >= 1,
    ;
    the_workspace_shown_is_named(t, infos, m, local);
    the_focused_monitor_is_named(t, infos);
}

// ── Every monitor and workspace ──────────────────────────────────────────────

/// Every monitor has an entry, which gives its number, counted from zero, and
/// its name, counted from one.
pub proof fn every_monitor_is_reported(s: ManagerState, infos: Seq<WindowInfo>, m: int)
    requires
        0 <= m < s.monitor_ws.len(),
    ensures
        occurs(state_json(s, infos), monitor_json(s, m, infos)),
        starts_with(
            monitor_json(s, m, infos),
            "{\"name\":\"Monitor "@ + decimal((m + 1) as nat) + "\",\"index\":"@ + decimal(
                m as nat,
            ) + ",\"workspaces\":{\"elements\":["@,
        ),
{
    let n = s.monitor_ws.len() as int;
    lemma_monitor_listed(s, infos, m, n);
    let head = "{\"monitors\":{\"elements\":["@;
    let tail = "],\"focused\":"@ + decimal(s.focused_mon as nat) + "}}\n"@;
    lemma_occurs_in(head, monitors_json(s, n, infos), tail, monitor_json(s, m, infos));
    assert(state_json(s, infos) =~= head + monitors_json(s, n, infos) + tail);
    let begin = "{\"name\":\"Monitor "@ + decimal((m + 1) as nat) + "\",\"index\":"@ + decimal(
        m as nat,
    ) + ",\"workspaces\":{\"elements\":["@;
    let text = monitor_json(s, m, infos);
    assert(text.subrange(0, begin.len() as int) =~= begin);
}

proof fn lemma_monitor_listed(s: ManagerState, infos: Seq<WindowInfo>, m: int, n: int)
    requires
        0 <= m < n,
    ensures
        occurs(monitors_json(s, n, infos), monitor_json(s, m, infos)),
    decreases n,
{
    let before = monitors_json(s, n - 1, infos);
    let entry = monitor_json(s, n - 1, infos);
    let none = Seq::<char>::empty();
    let all = monitors_json(s, n, infos);
    let head = if n == 1 {
        before
    } else {
        before + ","@
    };
    assert(all =~= head + entry);
    if m == n - 1 {
        lemma_occurs(head, entry, none);
        assert(all =~= head + entry + none);
    } else {
        lemma_monitor_listed(s, infos, m, n - 1);
        let tail = ","@ + entry;
        lemma_occurs_in(none, before, tail, monitor_json(s, m, infos));
        assert(all =~= none + before + tail);
    }
}

/// Every workspace has an entry with the monitor that owns it, numbered from the
/// first one there.
pub proof fn every_workspace_is_reported(
    s: ManagerState,
    infos: Seq<WindowInfo>,
    m: int,
    local: int,
)
    requires
        s.wf(),
        0 <= m < s.monitor_ws.len(),
        0 <= local < s.ws_per_mon,
        m * s.ws_per_mon + local < s.workspaces.len(),
    ensures
        occurs(
            monitor_json(s, m, infos),
            workspace_json(s.workspaces[m * s.ws_per_mon + local], local, infos),
        ),
{
    let start = m * s.ws_per_mon;
    let end = share_end(s, m);
    let entry = workspace_json(s.workspaces[start + local], local, infos);
    assert(0 <= start) by (nonlinear_arith)
        requires
            start == m * s.ws_per_mon,
            0 <= m,
            0 <= s.ws_per_mon,
    ;
    lemma_workspace_listed(s.workspaces, infos, start, end, local);
    let head = "{\"name\":\"Monitor "@ + decimal((m + 1) as nat) + "\",\"index\":"@ + decimal(
        m as nat,
    ) + ",\"workspaces\":{\"elements\":["@;
    let list = workspaces_json(s.workspaces, start, end, infos);
    let tail = monitor_json(s, m, infos).skip(head.len() + list.len() as int);
    lemma_occurs_in(head, list, tail, entry);
    assert(monitor_json(s, m, infos) =~= head + list + tail);
}

proof fn lemma_workspace_listed(
    ws: Seq<WorkspaceView>,
    infos: Seq<WindowInfo>,
    start: int,
    end: int,
    local: int,
)
    requires
        0 <= local < end - start,
    ensures
        occurs(
            workspaces_json(ws, start, end, infos),
            workspace_json(ws[start + local], local, infos),
        ),
    decreases end - start,
{
    let before = workspaces_json(ws, start, end - 1, infos);
    let entry = workspace_json(ws[end - 1], end - 1 - start, infos);
    let none = Seq::<char>::empty();
    let all = workspaces_json(ws, start, end, infos);
    let head = if end == start + 1 {
        before
    } else {
        before + ","@
    };
    assert(all =~= head + entry);
    if local == end - 1 - start {
        lemma_occurs(head, entry, none);
        assert(all =~= head + entry + none);
    } else {
        lemma_workspace_listed(ws, infos, start, end - 1, local);
        let tail = ","@ + entry;
        lemma_occurs_in(
            none,
            before,
            tail,
            workspace_json(ws[start + local], local, infos),
        );
        assert(all =~= none + before + tail);
    }
}

/// A monitor's entry lists its own workspaces and no others: it begins with the
/// first one of its share and ends with the last.
pub proof fn a_monitor_lists_its_own_workspaces(
    s: ManagerState,
    infos: Seq<WindowInfo>,
    m: int,
    last: int,
)
    requires
        s.wf(),
        0 <= m < s.monitor_ws.len(),
        0 <= last < s.ws_per_mon,
        m * s.ws_per_mon + last < s.workspaces.len(),
        last + 1 == s.ws_per_mon || m * s.ws_per_mon + last + 1 == s.workspaces.len(),
    ensures
        occurs(
            monitor_json(s, m, infos),
            ",\"workspaces\":{\"elements\":["@ + workspace_json(
                s.workspaces[m * s.ws_per_mon],
                0,
                infos,
            ),
        ),
        occurs(
            monitor_json(s, m, infos),
            workspace_json(s.workspaces[m * s.ws_per_mon + last], last, infos)
                + "],\"focused\":"@,
        ),
{
    let start = m * s.ws_per_mon;
    let end = start + last + 1;
    assert(0 <= start) by (nonlinear_arith)
        requires
            start == m * s.ws_per_mon,
            0 <= m,
            0 <= s.ws_per_mon,
    ;
    assert(share_end(s, m) == end);
    let list = workspaces_json(s.workspaces, start, end, infos);
    let head = "{\"name\":\"Monitor "@ + decimal((m + 1) as nat) + "\",\"index\":"@ + decimal(
        m as nat,
    );
    let tail = decimal(shown_index(s, m) as nat) + "}}"@;
    let first = workspace_json(s.workspaces[start], 0, infos);
    let entry = workspace_json(s.workspaces[end - 1], last, infos);
    lemma_first_listed(s.workspaces, infos, start, end);
    lemma_last_listed(s.workspaces, infos, start, end);
    lemma_framed(
        head,
        ",\"workspaces\":{\"elements\":["@,
        list,
        "],\"focused\":"@,
        tail,
        first,
        entry,
    );
    assert(monitor_json(s, m, infos) =~= head + ",\"workspaces\":{\"elements\":["@ + list
        + "],\"focused\":"@ + tail);
}

proof fn lemma_framed(
    head: Seq<char>,
    open: Seq<char>,
    list: Seq<char>,
    close: Seq<char>,
    tail: Seq<char>,
    first: Seq<char>,
    last: Seq<char>,
)
    requires
        starts_with(list, first),
        ends_with(list, last),
    ensures
        occurs(head + open + list + close + tail, open + first),
        occurs(head + open + list + close + tail, last + close),
{
    let text = head + open + list + close + tail;
    let more = list.skip(first.len() as int);
    assert(list =~= first + more);
    lemma_occurs(head, open + first, more + close + tail);
    assert(text =~= head + (open + first) + (more + close + tail));
    let less = list.take(list.len() - last.len());
    assert(list =~= less + last);
    lemma_occurs(head + open + less, last + close, tail);
    assert(text =~= head + open + less + (last + close) + tail);
}

proof fn lemma_last_listed(ws: Seq<WorkspaceView>, infos: Seq<WindowInfo>, start: int, end: int)
    requires
        start < end,
    ensures
        ends_with(
            workspaces_json(ws, start, end, infos),
            workspace_json(ws[end - 1], end - 1 - start, infos),
        ),
{
    let before = workspaces_json(ws, start, end - 1, infos);
    let entry = workspace_json(ws[end - 1], end - 1 - start, infos);
    if end == start + 1 {
        lemma_tail(before, entry);
    } else {
        lemma_tail(before + ","@, entry);
    }
}

proof fn lemma_first_listed(ws: Seq<WorkspaceView>, infos: Seq<WindowInfo>, start: int, end: int)
    requires
        start < end,
    ensures
        starts_with(workspaces_json(ws, start, end, infos), workspace_json(ws[start], 0, infos)),
    decreases end - start,
{
    let all = workspaces_json(ws, start, end, infos);
    let first = workspace_json(ws[start], 0, infos);
    if end == start + 1 {
        assert(workspaces_json(ws, start, start, infos) =~= Seq::<char>::empty());
        assert(all =~= first);
        assert(all.subrange(0, first.len() as int) =~= first);
    } else {
        lemma_first_listed(ws, infos, start, end - 1);
        let before = workspaces_json(ws, start, end - 1, infos);
        assert(all.subrange(0, first.len() as int) =~= before.subrange(0, first.len() as int));
    }
}

// ── One workspace ────────────────────────────────────────────────────────────

/// The entry of a workspace gives its name and its number.
pub proof fn a_workspace_is_named(ws: WorkspaceView, local: nat, infos: Seq<WindowInfo>)
    ensures
        starts_with(
            workspace_json(ws, local as int, infos),
            "{\"name\":\""@ + escaped(ws.name) + "\",\"index\":"@ + decimal(local)
                + ",\"layout\":\""@,
        ),
{
    let begin = "{\"name\":\""@ + escaped(ws.name) + "\",\"index\":"@ + decimal(local)
        + ",\"layout\":\""@;
    let text = workspace_json(ws, local as int, infos);
    assert(text.subrange(0, begin.len() as int) =~= begin);
}

/// The entry gives the title of the workspace's focused window, if it is known,
/// beside the layout.
pub proof fn the_focused_title_is_given(
    ws: WorkspaceView,
    local: nat,
    infos: Seq<WindowInfo>,
    w: WindowInfo,
)
    requires
        ws.focused == Some(w.id),
        info_of(infos, w.id) == Some(w),
    ensures
        occurs(
            workspace_json(ws, local as int, infos),
            ",\"layout\":\""@ + layout_name(ws.layout) + "\",\"focused_window\":\""@ + escaped(
                w.title@,
            ) + "\",\"windows\":{\"elements\":["@,
        ),
{
    let head = "{\"name\":\""@ + escaped(ws.name) + "\",\"index\":"@ + decimal(local);
    let needle = ",\"layout\":\""@ + layout_name(ws.layout) + "\",\"focused_window\":\""@
        + escaped(w.title@) + "\",\"windows\":{\"elements\":["@;
    let text = workspace_json(ws, local as int, infos);
    let tail = text.skip((head + needle).len() as int);
    lemma_occurs(head, needle, tail);
    assert(text =~= head + needle + tail);
}

/// Without a known focused window the title is empty.
pub proof fn without_focus_the_title_is_empty(
    ws: WorkspaceView,
    local: nat,
    infos: Seq<WindowInfo>,
)
    requires
        ws.focused matches Some(id) ==> info_of(infos, id) is None,
    ensures
        occurs(
            workspace_json(ws, local as int, infos),
            ",\"layout\":\""@ + layout_name(ws.layout) + "\",\"focused_window\":\""@
                + "\",\"windows\":{\"elements\":["@,
        ),
{
    let head = "{\"name\":\""@ + escaped(ws.name) + "\",\"index\":"@ + decimal(local);
    let needle = ",\"layout\":\""@ + layout_name(ws.layout) + "\",\"focused_window\":\""@
        + "\",\"windows\":{\"elements\":["@;
    let text = workspace_json(ws, local as int, infos);
    let tail = text.skip((head + needle).len() as int);
    lemma_occurs(head, needle, tail);
    assert(escaped(Seq::<char>::empty()) =~= Seq::<char>::empty());
    assert(text =~= head + needle + tail);
}

/// The entry ends with as many elements as the workspace has windows and the
/// place of the focused window among them.
pub proof fn the_focused_place_is_given(
    ws: WorkspaceView,
    local: nat,
    infos: Seq<WindowInfo>,
    k: int,
)
    requires
        ws.windows.no_duplicates(),
        0 <= k < ws.windows.len(),
        ws.focused == Some(ws.windows[k]),
    ensures
        ends_with(
            workspace_json(ws, local as int, infos),
            "\",\"windows\":{\"elements\":["@ + window_elements(ws.windows.len())
                + "],\"focused\":"@ + decimal(k as nat) + "}}"@,
        ),
{
    lemma_position(ws.windows, ws.windows[k]);
    assert(ws.windows.contains(ws.windows[k]));
    assert(focused_position(ws) == k);
    let text = workspace_json(ws, local as int, infos);
    let tail = "\",\"windows\":{\"elements\":["@ + window_elements(ws.windows.len())
        + "],\"focused\":"@ + decimal(k as nat) + "}}"@;
    let head = text.take(text.len() - tail.len());
    lemma_tail(head, tail);
    assert(text =~= head + tail);
}

/// How often `c` stands in a text.
pub open spec fn times(s: Seq<char>, c: char) -> nat
    decreases s.len(),
{
    if s.len() == 0 {
        0
    } else {
        times(s.drop_last(), c) + (if s.last() == c {
            1nat
        } else {
            0
        })
    }
}

proof fn lemma_times_join(a: Seq<char>, b: Seq<char>, c: char)
    ensures
        times(a + b, c) == times(a, c) + times(b, c),
    decreases b.len(),
{
    if b.len() == 0 {
        assert(a + b =~= a);
    } else {
        assert((a + b).drop_last() =~= a + b.drop_last());
        lemma_times_join(a, b.drop_last(), c);
    }
}

proof fn lemma_times_digits(n: nat)
    ensures
        times(decimal(n), '{') == 0,
    decreases n,
{
    let d = decimal(n);
    lemma_decimal_value(n);
    assert('0' <= d[d.len() - 1] <= '9');
    if n >= 10 {
        assert(d.drop_last() =~= decimal(n / 10));
        lemma_times_digits(n / 10);
    } else {
        assert(d.drop_last() =~= Seq::<char>::empty());
        assert(times(d.drop_last(), '{') == 0);
    }
}

/// There is one element for each window, numbered from zero in order.
pub proof fn one_element_per_window(n: nat, i: nat)
    ensures
        times(window_elements(n), '{') == n,
        i < n ==> occurs(window_elements(n), "{\"id\":"@ + decimal(i) + "}"@),
    decreases n,
{
    let none = Seq::<char>::empty();
    if n > 0 {
        let before = window_elements((n - 1) as nat);
        let entry = "{\"id\":"@ + decimal((n - 1) as nat) + "}"@;
        let head = if n == 1 {
            before
        } else {
            before + ","@
        };
        let all = window_elements(n);
        assert(all =~= head + entry);
        one_element_per_window((n - 1) as nat, i);
        reveal_strlit("{\"id\":");
        reveal_strlit("}");
        reveal_strlit(",");
        lemma_times_digits((n - 1) as nat);
        assert(times("}"@, '{') == 0 && times(","@, '{') == 0) by {
            assert("}"@.drop_last() =~= none && ","@.drop_last() =~= none);
            assert(times(none, '{') == 0);
        }
        assert(times("{\"id\":"@, '{') == 1) by {
            let one = seq!['{'];
            let rest = seq!['"', 'i', 'd', '"', ':'];
            assert("{\"id\":"@ =~= one + rest);
            lemma_times_join(one, rest, '{');
            reveal_with_fuel(times, 6);
            assert(one.drop_last() =~= none);
            assert(times(one, '{') == 1);
            assert(rest.drop_last() =~= seq!['"', 'i', 'd', '"']);
            assert(rest.drop_last().drop_last() =~= seq!['"', 'i', 'd']);
            assert(rest.drop_last().drop_last().drop_last() =~= seq!['"', 'i']);
            assert(rest.drop_last().drop_last().drop_last().drop_last() =~= seq!['"']);
            assert(rest.drop_last().drop_last().drop_last().drop_last().drop_last() =~= none);
        }
        lemma_times_join("{\"id\":"@, decimal((n - 1) as nat), '{');
        lemma_times_join("{\"id\":"@ + decimal((n - 1) as nat), "}"@, '{');
        lemma_times_join(before, ","@, '{');
        lemma_times_join(head, entry, '{');
        if i == n - 1 {
            lemma_occurs(head, entry, none);
            assert(all =~= head + entry + none);
        } else if i < n {
            let tail = if n == 1 {
                entry
            } else {
                ","@ + entry
            };
            lemma_occurs_in(none, before, tail, "{\"id\":"@ + decimal(i) + "}"@);
            assert(all =~= none + before + tail);
        }
    }
}

/// The name that a layout is reported under is the one that a configuration
/// sets it by.
pub proof fn layouts_are_reported_as_they_are_set(kind: LayoutKind)
    ensures
        match kind {
            LayoutKind::Columns { count } => action_string(Action::SetLayout(kind))
                == "set_layout:"@ + layout_name(kind) + ":"@ + decimal(count as nat),
            _ => action_string(Action::SetLayout(kind)) == "set_layout:"@ + layout_name(kind),
        },
{
    reveal_strlit("set_layout:");
    reveal_strlit(":");
    reveal_strlit("fibonacci");
    reveal_strlit("bsp");
    reveal_strlit("columns");
    reveal_strlit("monocle");
    reveal_strlit("center_main");
    reveal_strlit("float");
    reveal_strlit("set_layout:fibonacci");
    reveal_strlit("set_layout:bsp");
    reveal_strlit("set_layout:columns:");
    reveal_strlit("set_layout:monocle");
    reveal_strlit("set_layout:center_main");
    reveal_strlit("set_layout:float");
    match kind {
        LayoutKind::Columns { count } => {
            assert("set_layout:columns:"@ =~= "set_layout:"@ + "columns"@ + ":"@);
        },
        LayoutKind::Fibonacci => {
            assert("set_layout:fibonacci"@ =~= "set_layout:"@ + "fibonacci"@);
        },
        LayoutKind::Bsp => {
            assert("set_layout:bsp"@ =~= "set_layout:"@ + "bsp"@);
        },
        LayoutKind::Monocle => {
            assert("set_layout:monocle"@ =~= "set_layout:"@ + "monocle"@);
        },
        LayoutKind::CenterMain => {
            assert("set_layout:center_main"@ =~= "set_layout:"@ + "center_main"@);
        },
        LayoutKind::Float => {
            assert("set_layout:float"@ =~= "set_layout:"@ + "float"@);
        },
    }
}

} // verus!
