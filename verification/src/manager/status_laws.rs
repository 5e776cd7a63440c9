//! What holds of the line that status bars are sent.

use crate::layout::LayoutKind;
use crate::manager::info::WindowInfo;
use crate::manager::state::ManagerState;
use crate::manager::status::{
    escaped, escaped_char, focused_position, focused_title, layout_name, monitor_json,
    monitors_json, share_end, shown_index, state_json, window_elements, workspace_json,
    workspaces_json,
};
use crate::text::{decimal, lemma_decimal_value};
use crate::workspace::WorkspaceView;
use vstd::prelude::*;

verus! {

// ── Escaping ─────────────────────────────────────────────────────────────────

/// The text that an escaped text stands for.
pub open spec fn unescaped(s: Seq<char>) -> Seq<char>
    decreases s.len(),
{
    if s.len() == 0 {
        seq![]
    } else if s[0] == '\\' && s.len() > 1 {
        seq![
            if s[1] == 'n' {
                '\n'
            } else if s[1] == 'r' {
                '\r'
            } else {
                s[1]
            },
        ] + unescaped(s.skip(2))
    } else {
        seq![s[0]] + unescaped(s.skip(1))
    }
}

proof fn lemma_escaped_front(s: Seq<char>)
    requires
        s.len() > 0,
    ensures
        escaped(s) == escaped_char(s[0]) + escaped(s.skip(1)),
    decreases s.len(),
{
    if s.len() == 1 {
        assert(s.drop_last() =~= Seq::<char>::empty());
        assert(s.skip(1) =~= Seq::<char>::empty());
        assert(escaped(s) =~= escaped_char(s[0]) + escaped(s.skip(1)));
    } else {
        lemma_escaped_front(s.drop_last());
        assert(s.drop_last().skip(1) =~= s.skip(1).drop_last());
        assert(escaped(s) =~= escaped_char(s[0]) + escaped(s.skip(1)));
    }
}

/// An escaped text stands for the text that was escaped.
pub proof fn escaping_is_reversible(s: Seq<char>)
    ensures
        unescaped(escaped(s)) == s,
    decreases s.len(),
{
    if s.len() > 0 {
        lemma_escaped_front(s);
        escaping_is_reversible(s.skip(1));
        let e = escaped(s);
        let rest = escaped(s.skip(1));
        if escaped_char(s[0]).len() == 2 {
            assert(e.skip(2) =~= rest);
        } else {
            assert(e.skip(1) =~= rest);
        }
        assert(unescaped(e) =~= seq![s[0]] + s.skip(1));
        assert(seq![s[0]] + s.skip(1) =~= s);
    }
}

/// A text without line breaks.
pub open spec fn unbroken(s: Seq<char>) -> bool {
    forall|i: int| 0 <= i < s.len() ==> #[trigger] s[i] != '\n' && s[i] != '\r'
}

/// An escaped text has no line breaks.
pub proof fn escaped_text_is_unbroken(s: Seq<char>)
    ensures
        unbroken(escaped(s)),
    decreases s.len(),
{
    if s.len() > 0 {
        escaped_text_is_unbroken(s.drop_last());
    }
}

/// A reader who passes over what follows a backslash meets no quote: the text
/// cannot end the string that it stands in.
pub open spec fn quotes_nothing_bare(s: Seq<char>) -> bool
    decreases s.len(),
{
    if s.len() == 0 {
        true
    } else if s[0] == '\\' {
        s.len() >= 2 && quotes_nothing_bare(s.skip(2))
    } else {
        s[0] != '"' && quotes_nothing_bare(s.skip(1))
    }
}

/// An escaped text stays within the quotes around it, whatever it holds.
pub proof fn escaped_text_stays_within_its_quotes(s: Seq<char>)
    ensures
        quotes_nothing_bare(escaped(s)),
    decreases s.len(),
{
    if s.len() > 0 {
        lemma_escaped_front(s);
        escaped_text_stays_within_its_quotes(s.skip(1));
        let e = escaped(s);
        let rest = escaped(s.skip(1));
        if escaped_char(s[0]).len() == 2 {
            assert(e.skip(2) =~= rest);
        } else {
            assert(e.skip(1) =~= rest);
        }
    }
}

// ── The line ─────────────────────────────────────────────────────────────────

proof fn lemma_decimal_unbroken(n: nat)
    ensures
        unbroken(decimal(n)),
{
    lemma_decimal_value(n);
}

proof fn lemma_elements_unbroken(n: nat)
    ensures
        unbroken(window_elements(n)),
    decreases n,
{
    if n > 0 {
        lemma_elements_unbroken((n - 1) as nat);
        lemma_decimal_unbroken((n - 1) as nat);
        reveal_strlit(",");
        reveal_strlit("{\"id\":");
        reveal_strlit("}");
    }
}

proof fn lemma_layout_unbroken(kind: LayoutKind)
    ensures
        unbroken(layout_name(kind)),
{
    reveal_strlit("fibonacci");
    reveal_strlit("bsp");
    reveal_strlit("columns");
    reveal_strlit("monocle");
    reveal_strlit("center_main");
    reveal_strlit("float");
}

proof fn lemma_workspace_unbroken(ws: WorkspaceView, local: int, infos: Seq<WindowInfo>)
    ensures
        unbroken(workspace_json(ws, local, infos)),
{
    escaped_text_is_unbroken(ws.name);
    escaped_text_is_unbroken(focused_title(ws, infos));
    lemma_decimal_unbroken(local as nat);
    lemma_decimal_unbroken(focused_position(ws) as nat);
    lemma_layout_unbroken(ws.layout);
    lemma_elements_unbroken(ws.windows.len());
    reveal_strlit("{\"name\":\"");
    reveal_strlit("\",\"index\":");
    reveal_strlit(",\"layout\":\"");
    reveal_strlit("\",\"focused_window\":\"");
    reveal_strlit("\",\"windows\":{\"elements\":[");
    reveal_strlit("],\"focused\":");
    reveal_strlit("}}");
}

proof fn lemma_workspaces_unbroken(
    workspaces: Seq<WorkspaceView>,
    start: int,
    end: int,
    infos: Seq<WindowInfo>,
)
    ensures
        unbroken(workspaces_json(workspaces, start, end, infos)),
    decreases end - start,
{
    if end > start {
        lemma_workspaces_unbroken(workspaces, start, end - 1, infos);
        lemma_workspace_unbroken(workspaces[end - 1], end - 1 - start, infos);
        reveal_strlit(",");
    }
}

proof fn lemma_monitor_unbroken(s: ManagerState, m: int, infos: Seq<WindowInfo>)
    ensures
        unbroken(monitor_json(s, m, infos)),
{
    lemma_decimal_unbroken((m + 1) as nat);
    lemma_decimal_unbroken(m as nat);
    lemma_decimal_unbroken(shown_index(s, m) as nat);
    lemma_workspaces_unbroken(s.workspaces, m * s.ws_per_mon, share_end(s, m), infos);
    reveal_strlit("{\"name\":\"Monitor ");
    reveal_strlit("\",\"index\":");
    reveal_strlit(",\"workspaces\":{\"elements\":[");
    reveal_strlit("],\"focused\":");
    reveal_strlit("}}");
}

proof fn lemma_monitors_unbroken(s: ManagerState, n: int, infos: Seq<WindowInfo>)
    ensures
        unbroken(monitors_json(s, n, infos)),
    decreases n,
{
    if n > 0 {
        lemma_monitors_unbroken(s, n - 1, infos);
        lemma_monitor_unbroken(s, n - 1, infos);
        reveal_strlit(",");
    }
}

/// Whatever windows and workspaces are called, the state is exactly one line:
/// it ends with a line feed and has no other line break.
pub proof fn state_is_one_line(s: ManagerState, infos: Seq<WindowInfo>)
    ensures
        state_json(s, infos).len() > 0,
        state_json(s, infos).last() == '\n',
        unbroken(state_json(s, infos).drop_last()),
{
    lemma_monitors_unbroken(s, s.monitor_ws.len() as int, infos);
    lemma_decimal_unbroken(s.focused_mon as nat);
    reveal_strlit("{\"monitors\":{\"elements\":[");
    reveal_strlit("],\"focused\":");
    reveal_strlit("}}\n");
}

} // verus!
