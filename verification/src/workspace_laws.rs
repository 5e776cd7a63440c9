//! What the operations on workspaces keep and undo.

use crate::layout::LayoutKind;
use crate::window::{Rect, WindowId};
use crate::workspace::{without, WorkspaceView};
use vstd::prelude::*;

verus! {

/// `without` drops exactly `id` and keeps the order of the others.
pub proof fn without_drops_only_it(ids: Seq<WindowId>, id: WindowId)
    ensures
        forall|x: WindowId| #[trigger] without(ids, id).contains(x) <==> ids.contains(x) && x != id,
        ids.no_duplicates() ==> without(ids, id).no_duplicates(),
        !ids.contains(id) ==> without(ids, id) == ids,
        without(ids, id).len() <= ids.len(),
    decreases ids.len(),
{
    if ids.len() > 0 {
        let rest = ids.drop_last();
        let kept = without(rest, id);
        let all = without(ids, id);
        without_drops_only_it(rest, id);
        assert(ids =~= rest.push(ids.last()));
        assert forall|x: WindowId| #[trigger] all.contains(x) <==> ids.contains(x) && x != id by {
            lemma_push_contains(rest, ids.last(), x);
            lemma_push_contains(kept, ids.last(), x);
        }
        if ids.no_duplicates() {
            assert(rest.no_duplicates());
            if rest.contains(ids.last()) {
                let k = choose|k: int| 0 <= k < rest.len() && rest[k] == ids.last();
                assert(ids[k] == ids[ids.len() - 1]);
            }
            assert(!kept.contains(ids.last()));
            lemma_push_no_duplicates(kept, ids.last());
        }
        if !ids.contains(id) {
            lemma_push_contains(rest, ids.last(), id);
            assert(ids[ids.len() - 1] == ids.last());
            assert(ids.contains(ids.last()));
            assert(all =~= ids);
        }
    } else {
        assert(without(ids, id) =~= ids);
    }
}

/// Pushing one element adds exactly that element.
pub proof fn lemma_push_contains(ids: Seq<WindowId>, id: WindowId, x: WindowId)
    ensures
        ids.push(id).contains(x) <==> ids.contains(x) || x == id,
{
    let all = ids.push(id);
    if ids.contains(x) {
        let k = choose|k: int| 0 <= k < ids.len() && ids[k] == x;
        assert(all[k] == x);
    }
    assert(all[ids.len() as int] == id);
    if all.contains(x) && x != id {
        let k = choose|k: int| 0 <= k < all.len() && all[k] == x;
        assert(ids[k] == x);
    }
}

/// Pushing a new element keeps the elements apart.
pub proof fn lemma_push_no_duplicates(ids: Seq<WindowId>, id: WindowId)
    requires
        ids.no_duplicates(),
        !ids.contains(id),
    ensures
        ids.push(id).no_duplicates(),
{
    let all = ids.push(id);
    assert forall|i: int, j: int| 0 <= i < all.len() && 0 <= j < all.len() && i != j implies all[i]
        != all[j] by {
        if i < ids.len() && j < ids.len() {
            assert(ids[i] != ids[j]);
        } else if i < ids.len() {
            assert(ids.contains(ids[i]));
        } else {
            assert(ids.contains(ids[j]));
        }
    }
}

/// A new workspace is sound.
pub proof fn new_is_sound(name: Seq<char>, layout: LayoutKind)
    ensures
        (WorkspaceView {
            name,
            layout,
            windows: seq![],
            focused: None,
            fullscreen: Map::empty(),
        }).sound(),
{
}

/// An added window is listed and no other window joins or leaves; the
/// workspace stays sound.
pub proof fn adding_lists_window(ws: WorkspaceView, id: WindowId)
    requires
        ws.sound(),
    ensures
        ws.added(id).sound(),
        forall|x: WindowId| #[trigger]
            ws.added(id).windows.contains(x) <==> ws.windows.contains(x) || x == id,
{
    if !ws.windows.contains(id) {
        lemma_push_no_duplicates(ws.windows, id);
        assert forall|x: WindowId| #[trigger] ws.added(id).windows.contains(x)
            <==> ws.windows.contains(x) || x == id by {
            lemma_push_contains(ws.windows, id, x);
        }
        assert forall|x: WindowId| #[trigger] ws.added(id).is_full(x) implies ws.added(
            id,
        ).windows.contains(x) by {
            assert(ws.is_full(x));
        }
    }
}

/// Adding a window twice is adding it once.
pub proof fn adding_twice_is_adding_once(ws: WorkspaceView, id: WindowId)
    ensures
        ws.added(id).added(id) == ws.added(id),
{
    lemma_push_contains(ws.windows, id, id);
}

/// A removed window is neither listed nor focused nor fullscreen, and no other
/// window joins or leaves; the workspace stays sound.
pub proof fn removing_drops_window(ws: WorkspaceView, id: WindowId)
    requires
        ws.sound(),
    ensures
        ws.removed(id).sound(),
        ws.removed(id).focused != Some(id),
        !ws.removed(id).is_full(id),
        forall|x: WindowId| #[trigger]
            ws.removed(id).windows.contains(x) <==> ws.windows.contains(x) && x != id,
{
    without_drops_only_it(ws.windows, id);
    let after = ws.removed(id);
    if ws.focused == Some(id) && after.windows.len() > 0 {
        let last = after.windows.last();
        assert(after.windows[after.windows.len() - 1] == last);
        assert(after.windows.contains(last));
    }
    assert forall|x: WindowId| #[trigger] after.is_full(x) implies after.windows.contains(x) by {
        assert(ws.is_full(x));
    }
}

/// Removing a window undoes adding it, where the workspace had a focus to go
/// back to or no windows at all.
pub proof fn removing_undoes_adding(ws: WorkspaceView, id: WindowId)
    requires
        ws.sound(),
        !ws.windows.contains(id),
        ws.focused is Some || ws.windows.len() == 0,
    ensures
        ws.added(id).removed(id) == ws,
{
    let added = ws.added(id);
    without_drops_only_it(ws.windows, id);
    assert(added.windows.drop_last() =~= ws.windows);
    assert(added.windows.last() == id);
    assert(without(added.windows, id) == ws.windows);
    assert(!ws.is_full(id));
    assert(added.fullscreen.remove(id.0) =~= ws.fullscreen);
    if ws.focused == Some(id) {
        assert(ws.windows.contains(id));
    }
}

/// Removing a window that is not there changes nothing.
pub proof fn removing_a_stranger_changes_nothing(ws: WorkspaceView, id: WindowId)
    requires
        ws.sound(),
        !ws.windows.contains(id),
    ensures
        ws.removed(id) == ws,
{
    without_drops_only_it(ws.windows, id);
    assert(!ws.is_full(id));
    assert(ws.fullscreen.remove(id.0) =~= ws.fullscreen);
}

/// Leaving fullscreen undoes entering it: the saved geometry is there and the
/// workspace is as it was.
pub proof fn leaving_fullscreen_undoes_entering(ws: WorkspaceView, id: WindowId, saved: Rect)
    requires
        !ws.is_full(id),
    ensures
        ({
            let entered = WorkspaceView { fullscreen: ws.fullscreen.insert(id.0, saved), ..ws };
            &&& entered.is_full(id)
            &&& entered.fullscreen[id.0] == saved
            &&& (WorkspaceView { fullscreen: entered.fullscreen.remove(id.0), ..entered }) == ws
        }),
{
    assert(ws.fullscreen.insert(id.0, saved).remove(id.0) =~= ws.fullscreen);
}

// ── Over a sequence of calls ─────────────────────────────────────────────────

/// One call on a workspace.
pub enum Call {
    Add(WindowId),
    Remove(WindowId),
    Enter(WindowId, Rect),
    Exit(WindowId),
}

/// The workspace after one more call.
pub open spec fn after_call(ws: WorkspaceView, call: Call) -> WorkspaceView {
    match call {
        Call::Add(id) => ws.added(id),
        Call::Remove(id) => ws.removed(id),
        Call::Enter(id, saved) => WorkspaceView {
            fullscreen: ws.fullscreen.insert(id.0, saved),
            ..ws
        },
        Call::Exit(id) => WorkspaceView { fullscreen: ws.fullscreen.remove(id.0), ..ws },
    }
}

/// A new workspace after some calls.
pub open spec fn after_calls(name: Seq<char>, calls: Seq<Call>) -> WorkspaceView
    decreases calls.len(),
{
    if calls.len() == 0 {
        WorkspaceView {
            name,
            layout: LayoutKind::Fibonacci,
            windows: seq![],
            focused: None,
            fullscreen: Map::empty(),
        }
    } else {
        after_call(after_calls(name, calls.drop_last()), calls.last())
    }
}

/// The call decides whether `id` is fullscreen.
pub open spec fn settles(call: Call, id: WindowId) -> bool {
    match call {
        Call::Add(_) => false,
        Call::Remove(x) => x == id,
        Call::Enter(x, _) => x == id,
        Call::Exit(x) => x == id,
    }
}

/// Call `k` is the last entry of `id` into fullscreen, and neither an exit nor a
/// removal of it follows.
pub open spec fn entry_stands(calls: Seq<Call>, id: WindowId, k: int) -> bool {
    &&& 0 <= k < calls.len()
    &&& calls[k] matches Call::Enter(x, _) && x == id
    &&& forall|j: int| k < j < calls.len() ==> !settles(#[trigger] calls[j], id)
}

/// After any calls, just those windows are fullscreen whose last entry was not
/// followed by an exit or a removal, and the geometry saved for each is that of
/// its last entry.
pub proof fn fullscreen_follows_the_last_entry(name: Seq<char>, calls: Seq<Call>, id: WindowId)
    ensures
        after_calls(name, calls).is_full(id) <==> exists|k: int| #[trigger]
            entry_stands(calls, id, k),
        forall|k: int| #[trigger]
            entry_stands(calls, id, k) ==> after_calls(name, calls).fullscreen[id.0]
                == calls[k]->Enter_1,
    decreases calls.len(),
{
    let n = calls.len() as int;
    if n > 0 {
        let before = calls.drop_last();
        let call = calls.last();
        fullscreen_follows_the_last_entry(name, before, id);
        if settles(call, id) {
            assert forall|k: int| #[trigger] entry_stands(calls, id, k) implies k == n - 1 by {
                if k < n - 1 {
                    assert(!settles(calls[n - 1], id));
                }
            }
            if call is Enter {
                assert(entry_stands(calls, id, n - 1));
            }
        } else {
            assert forall|k: int| #[trigger] entry_stands(calls, id, k) implies entry_stands(
                before,
                id,
                k,
            ) && calls[k] == before[k] by {
                assert(k < n - 1);
                assert forall|j: int| k < j < before.len() implies !settles(
                    #[trigger] before[j],
                    id,
                ) by {
                    assert(before[j] == calls[j]);
                }
            }
            assert forall|k: int| #[trigger] entry_stands(before, id, k) implies entry_stands(
                calls,
                id,
                k,
            ) by {
                assert forall|j: int| k < j < calls.len() implies !settles(
                    #[trigger] calls[j],
                    id,
                ) by {
                    if j < n - 1 {
                        assert(before[j] == calls[j]);
                    }
                }
            }
        }
    }
}

} // verus!
