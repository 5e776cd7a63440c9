//! The state that a status bar is told, as one line of JSON.
//!
//! The envelope is a list of monitors, each with a list of workspaces.  Beside
//! the fields common to such bars, a workspace has `layout`, its tiling
//! strategy, and `focused_window`, the title of its focused window.

use crate::layout::LayoutKind;
use crate::manager::info::{find_info, info_of, WindowInfo};
use crate::manager::state::{workspace_views, Manager, ManagerState};
use crate::text::{chars_of, decimal, push_decimal};
use crate::workspace::{find_position, position, Workspace, WorkspaceView};
use vstd::prelude::*;
use vstd::string::*;

verus! {

/// Name of a tiling strategy.
pub open spec fn layout_name(kind: LayoutKind) -> Seq<char> {
    match kind {
        LayoutKind::Fibonacci => "fibonacci"@,
        LayoutKind::Bsp => "bsp"@,
        LayoutKind::Columns { .. } => "columns"@,
        LayoutKind::Monocle => "monocle"@,
        LayoutKind::CenterMain => "center_main"@,
        LayoutKind::Float => "float"@,
    }
}

/// Name of a tiling strategy.
pub fn layout_kind_str(kind: &LayoutKind) -> (r: &'static str)
    ensures
        r@ == layout_name(*kind),
{
    match kind {
        LayoutKind::Fibonacci => "fibonacci",
        LayoutKind::Bsp => "bsp",
        LayoutKind::Columns { .. } => "columns",
        LayoutKind::Monocle => "monocle",
        LayoutKind::CenterMain => "center_main",
        LayoutKind::Float => "float",
    }
}

// ── Escaping ─────────────────────────────────────────────────────────────────

/// One character of a text as it stands in a JSON string.
pub open spec fn escaped_char(c: char) -> Seq<char> {
    if c == '\\' {
        seq!['\\', '\\']
    } else if c == '"' {
        seq!['\\', '"']
    } else if c == '\n' {
        seq!['\\', 'n']
    } else if c == '\r' {
        seq!['\\', 'r']
    } else {
        seq![c]
    }
}

/// A text as it stands in a JSON string.
pub open spec fn escaped(s: Seq<char>) -> Seq<char>
    decreases s.len(),
{
    if s.len() == 0 {
        seq![]
    } else {
        escaped(s.drop_last()) + escaped_char(s.last())
    }
}

/// Escape backslashes, quotes and line breaks for a JSON string.
pub fn json_escape(s: &str) -> (r: String)
    ensures
        r@ == escaped(s@),
{
    let cs = chars_of(s);
    let mut out = String::new();
    let mut i: usize = 0;
    assert(cs@.take(0) =~= Seq::<char>::empty());
    while i < cs.len()
        invariant
            i <= cs@.len(),
            out@ == escaped(cs@.take(i as int)),
        decreases cs@.len() - i,
    {
        let c = cs[i];
        let ghost before = out@;
        assert(cs@.take(i + 1).drop_last() =~= cs@.take(i as int));
        assert(cs@.take(i + 1).last() == c);
        if c == '\\' {
            out.push('\\');
            out.push('\\');
        } else if c == '"' {
            out.push('\\');
            out.push('"');
        } else if c == '\n' {
            out.push('\\');
            out.push('n');
        } else if c == '\r' {
            out.push('\\');
            out.push('r');
        } else {
            out.push(c);
        }
        assert(out@ =~= before + escaped_char(c));
        i += 1;
    }
    assert(cs@.take(i as int) =~= s@);
    out
}

// ── The envelope ─────────────────────────────────────────────────────────────

/// `{"id":0},{"id":1},…` up to `n` elements.
pub open spec fn window_elements(n: nat) -> Seq<char>
    decreases n,
{
    if n == 0 {
        seq![]
    } else {
        let before = window_elements((n - 1) as nat);
        (if n == 1 {
            before
        } else {
            before + ","@
        }) + "{\"id\":"@ + decimal((n - 1) as nat) + "}"@
    }
}

/// Index of the focused window among a workspace's windows; zero if none is.
pub open spec fn focused_position(ws: WorkspaceView) -> int {
    match ws.focused {
        Some(id) => match position(ws.windows, id) {
            Some(i) => i,
            None => 0,
        },
        None => 0,
    }
}

/// Title of a workspace's focused window; empty if it has none or the window is
/// not known.
pub open spec fn focused_title(ws: WorkspaceView, infos: Seq<WindowInfo>) -> Seq<char> {
    match ws.focused {
        Some(id) => match info_of(infos, id) {
            Some(w) => w.title@,
            None => seq![],
        },
        None => seq![],
    }
}

/// One workspace.
pub open spec fn workspace_json(
    ws: WorkspaceView,
    local: int,
    infos: Seq<WindowInfo>,
) -> Seq<char> {
    "{\"name\":\""@ + escaped(ws.name) + "\",\"index\":"@ + decimal(local as nat)
        + ",\"layout\":\""@ + layout_name(ws.layout) + "\",\"focused_window\":\""@ + escaped(
        focused_title(ws, infos),
    ) + "\",\"windows\":{\"elements\":["@ + window_elements(ws.windows.len())
        + "],\"focused\":"@ + decimal(focused_position(ws) as nat) + "}}"@
}

/// The workspaces from `start` up to `end`, separated by commas.
pub open spec fn workspaces_json(
    workspaces: Seq<WorkspaceView>,
    start: int,
    end: int,
    infos: Seq<WindowInfo>,
) -> Seq<char>
    decreases end - start,
{
    if end <= start {
        seq![]
    } else {
        let before = workspaces_json(workspaces, start, end - 1, infos);
        (if end == start + 1 {
            before
        } else {
            before + ","@
        }) + workspace_json(workspaces[end - 1], end - 1 - start, infos)
    }
}

/// First workspace beyond the share of monitor `m`.
pub open spec fn share_end(s: ManagerState, m: int) -> int {
    let end = m * s.ws_per_mon + s.ws_per_mon;
    if end < s.workspaces.len() {
        end
    } else {
        s.workspaces.len() as int
    }
}

/// Index within the share of monitor `m` of the workspace that it shows; zero
/// if that is not of its share.
pub open spec fn shown_index(s: ManagerState, m: int) -> int {
    let start = m * s.ws_per_mon;
    if start <= s.monitor_ws[m] < share_end(s, m) {
        s.monitor_ws[m] - start
    } else {
        0
    }
}

/// One monitor.
pub open spec fn monitor_json(s: ManagerState, m: int, infos: Seq<WindowInfo>) -> Seq<char> {
    "{\"name\":\"Monitor "@ + decimal((m + 1) as nat) + "\",\"index\":"@ + decimal(m as nat)
        + ",\"workspaces\":{\"elements\":["@ + workspaces_json(
        s.workspaces,
        m * s.ws_per_mon,
        share_end(s, m),
        infos,
    ) + "],\"focused\":"@ + decimal(shown_index(s, m) as nat) + "}}"@
}

/// The first `n` monitors, separated by commas.
pub open spec fn monitors_json(s: ManagerState, n: int, infos: Seq<WindowInfo>) -> Seq<char>
    decreases n,
{
    if n <= 0 {
        seq![]
    } else {
        let before = monitors_json(s, n - 1, infos);
        (if n == 1 {
            before
        } else {
            before + ","@
        }) + monitor_json(s, n - 1, infos)
    }
}

/// The whole state, ended by a line break.
pub open spec fn state_json(s: ManagerState, infos: Seq<WindowInfo>) -> Seq<char> {
    "{\"monitors\":{\"elements\":["@ + monitors_json(s, s.monitor_ws.len() as int, infos)
        + "],\"focused\":"@ + decimal(s.focused_mon as nat) + "}}\n"@
}

// ── Rendering ────────────────────────────────────────────────────────────────

fn push_text(out: &mut String, s: &str)
    ensures
        final(out)@ == old(out)@ + s@,
{
    out.append(s);
}

fn push_window_elements(out: &mut String, n: usize)
    ensures
        final(out)@ == old(out)@ + window_elements(n as nat),
{
    let ghost start = out@;
    let mut i: usize = 0;
    assert(start + window_elements(0) =~= start);
    while i < n
        invariant
            i <= n,
            out@ == start + window_elements(i as nat),
        decreases n - i,
    {
        if i > 0 {
            push_text(out, ",");
        }
        push_text(out, "{\"id\":");
        push_decimal(out, i as u64);
        push_text(out, "}");
        i += 1;
        assert(out@ =~= start + window_elements(i as nat));
    }
}

fn focused_index(ws: &Workspace) -> (r: usize)
    ensures
        r == focused_position(ws@),
{
    match ws.focused {
        Some(id) => match find_position(&ws.windows, id) {
            Some(i) => i,
            None => 0,
        },
        None => 0,
    }
}

fn push_workspace(out: &mut String, ws: &Workspace, local: usize, infos: &Vec<WindowInfo>)
    ensures
        final(out)@ == old(out)@ + workspace_json(ws@, local as int, infos@),
{
    let ghost start = out@;
    push_text(out, "{\"name\":\"");
    let name = json_escape(ws.name.as_str());
    push_text(out, name.as_str());
    push_text(out, "\",\"index\":");
    push_decimal(out, local as u64);
    push_text(out, ",\"layout\":\"");
    push_text(out, layout_kind_str(&ws.layout));
    push_text(out, "\",\"focused_window\":\"");
    let title = match ws.focused {
        Some(id) => match find_info(infos, id) {
            Some(w) => json_escape(w.title.as_str()),
            None => String::new(),
        },
        None => String::new(),
    };
    assert(title@ =~= escaped(focused_title(ws@, infos@)));
    push_text(out, title.as_str());
    push_text(out, "\",\"windows\":{\"elements\":[");
    push_window_elements(out, ws.windows.len());
    push_text(out, "],\"focused\":");
    push_decimal(out, focused_index(ws) as u64);
    push_text(out, "}}");
    assert(out@ =~= start + workspace_json(ws@, local as int, infos@));
}

fn push_workspaces(
    out: &mut String,
    workspaces: &Vec<Workspace>,
    start: usize,
    end: usize,
    infos: &Vec<WindowInfo>,
)
    requires
        end <= workspaces@.len(),
    ensures
        final(out)@ == old(out)@ + workspaces_json(
            workspace_views(workspaces@),
            start as int,
            end as int,
            infos@,
        ),
{
    let ghost before = out@;
    let ghost views = workspace_views(workspaces@);
    let mut i: usize = start;
    assert(before + workspaces_json(views, start as int, start as int, infos@) =~= before);
    if end <= start {
        assert(before + workspaces_json(views, start as int, end as int, infos@) =~= before);
        return ;
    }
    while i < end
        invariant
            start <= i <= end <= workspaces@.len(),
            views == workspace_views(workspaces@),
            out@ == before + workspaces_json(views, start as int, i as int, infos@),
        decreases end - i,
    {
        if i > start {
            push_text(out, ",");
        }
        push_workspace(out, &workspaces[i], i - start, infos);
        i += 1;
        assert(out@ =~= before + workspaces_json(views, start as int, i as int, infos@));
    }
}

impl Manager {
    /// The share of monitor `m`: its first workspace, the first beyond it, and
    /// the index within it of the workspace shown.
    fn share(&self, m: usize) -> (r: (usize, usize, usize))
        requires
            self@.wf(),
            m < self.monitor_ws@.len(),
        ensures
            r.0 == m * self.ws_per_mon,
            r.1 == share_end(self@, m as int),
            r.2 == shown_index(self@, m as int),
            r.1 <= self.workspaces@.len(),
    {
        assert(0 <= m * self.ws_per_mon && m * self.ws_per_mon + self.ws_per_mon
            <= self.monitor_ws@.len() * self.ws_per_mon) by (nonlinear_arith)
            requires
                m + 1 <= self.monitor_ws@.len(),
        ;
        let start: usize = m * self.ws_per_mon;
        let n = self.workspaces.len();
        let end: usize = if start + self.ws_per_mon < n {
            start + self.ws_per_mon
        } else {
            n
        };
        let shown = self.monitor_ws[m];
        let local: usize = if start <= shown && shown < end {
            shown - start
        } else {
            0
        };
        (start, end, local)
    }

    fn push_monitor(&self, out: &mut String, m: usize, infos: &Vec<WindowInfo>)
        requires
            self@.wf(),
            m < self.monitor_ws@.len(),
        ensures
            final(out)@ == old(out)@ + monitor_json(self@, m as int, infos@),
    {
        let ghost before = out@;
        let monitors = self.monitor_ws.len();
        assert(m < monitors);
        let (start, end, local) = self.share(m);
        push_text(out, "{\"name\":\"Monitor ");
        push_decimal(out, (m + 1) as u64);
        push_text(out, "\",\"index\":");
        push_decimal(out, m as u64);
        push_text(out, ",\"workspaces\":{\"elements\":[");
        push_workspaces(out, &self.workspaces, start, end, infos);
        push_text(out, "],\"focused\":");
        push_decimal(out, local as u64);
        push_text(out, "}}");
        assert(out@ =~= before + monitor_json(self@, m as int, infos@));
    }

    /// Build the state payload for a status bar.
    pub fn build_yasb_json(&self, infos: &Vec<WindowInfo>) -> (r: String)
        requires
            self@.wf(),
        ensures
            r@ == state_json(self@, infos@),
    {
        let mut out = String::new();
        push_text(&mut out, "{\"monitors\":{\"elements\":[");
        let ghost before = out@;
        let mut m: usize = 0;
        assert(before + monitors_json(self@, 0, infos@) =~= before);
        while m < self.monitor_ws.len()
            invariant
                m <= self.monitor_ws@.len(),
                self@.wf(),
                out@ == before + monitors_json(self@, m as int, infos@),
            decreases self.monitor_ws@.len() - m,
        {
            if m > 0 {
                push_text(&mut out, ",");
            }
            self.push_monitor(&mut out, m, infos);
            m += 1;
            assert(out@ =~= before + monitors_json(self@, m as int, infos@));
        }
        push_text(&mut out, "],\"focused\":");
        push_decimal(&mut out, self.focused_mon as u64);
        push_text(&mut out, "}}\n");
        assert(out@ =~= state_json(self@, infos@));
        out
    }
}

} // verus!
