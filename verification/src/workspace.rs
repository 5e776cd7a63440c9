//! Named groups of windows with an associated tiling layout.

use crate::layout::LayoutKind;
use crate::window::{Rect, WindowId};
use std::collections::HashMap;
use vstd::prelude::*;
use vstd::std_specs::iter::IteratorSpec;
use vstd::string::*;

verus! {

broadcast use vstd::std_specs::hash::group_hash_axioms;

/// A workspace groups windows under a named label and a chosen layout.
#[derive(Debug)]
pub struct Workspace {
    pub name: String,
    pub layout: LayoutKind,
    /// Windows in layout order.
    pub windows: Vec<WindowId>,
    pub focused: Option<WindowId>,
    /// Geometry to return to, per fullscreen window, keyed by window number.
    pub fullscreen: HashMap<u64, Rect>,
}

/// What a workspace holds.
pub struct WorkspaceView {
    pub name: Seq<char>,
    pub layout: LayoutKind,
    /// Windows in layout order.
    pub windows: Seq<WindowId>,
    pub focused: Option<WindowId>,
    /// Saved geometry of the fullscreen windows, by window number.
    pub fullscreen: Map<u64, Rect>,
}

/// `ids` without `id`.
pub open spec fn without(ids: Seq<WindowId>, id: WindowId) -> Seq<WindowId>
    decreases ids.len(),
{
    if ids.len() == 0 {
        seq![]
    } else if ids.last() == id {
        without(ids.drop_last(), id)
    } else {
        without(ids.drop_last(), id).push(ids.last())
    }
}

/// Position of the first occurrence of `id`.
pub open spec fn position(ids: Seq<WindowId>, id: WindowId) -> Option<int>
    decreases ids.len(),
{
    if ids.len() == 0 {
        None
    } else if let Some(i) = position(ids.drop_last(), id) {
        Some(i)
    } else if ids.last() == id {
        Some(ids.len() - 1)
    } else {
        None
    }
}

/// `position` gives the first place that holds `id`, if any does.
pub proof fn lemma_position(ids: Seq<WindowId>, id: WindowId)
    ensures
        match position(ids, id) {
            Some(i) => 0 <= i < ids.len() && ids[i] == id && forall|j: int|
                0 <= j < i ==> ids[j] != id,
            None => !ids.contains(id),
        },
    decreases ids.len(),
{
    if ids.len() > 0 {
        lemma_position(ids.drop_last(), id);
        if position(ids, id) is None {
            assert forall|j: int| 0 <= j < ids.len() implies ids[j] != id by {
                if j < ids.len() - 1 {
                    assert(ids.drop_last()[j] == ids[j]);
                    assert(!ids.drop_last().contains(id));
                }
            }
        } else if position(ids.drop_last(), id) is None {
            assert forall|j: int| 0 <= j < ids.len() - 1 implies ids[j] != id by {
                assert(ids.drop_last()[j] == ids[j]);
                assert(!ids.drop_last().contains(id));
            }
        } else {
            let i = position(ids, id)->0;
            assert forall|j: int| 0 <= j < i implies ids[j] != id by {
                assert(ids.drop_last()[j] == ids[j]);
            }
        }
    }
}

/// Position of the first occurrence of `id`.
pub fn find_position(ids: &Vec<WindowId>, id: WindowId) -> (r: Option<usize>)
    ensures
        match r {
            Some(i) => position(ids@, id) == Some(i as int) && i < ids@.len() && ids@[i as int]
                == id,
            None => position(ids@, id) is None && !ids@.contains(id),
        },
{
    let mut i: usize = 0;
    proof {
        lemma_position(ids@, id);
    }
    while i < ids.len()
        invariant
            i <= ids@.len(),
            forall|j: int| 0 <= j < i ==> ids@[j] != id,
            match position(ids@, id) {
                Some(i) => 0 <= i < ids@.len() && ids@[i] == id && forall|j: int|
                    0 <= j < i ==> ids@[j] != id,
                None => !ids@.contains(id),
            },
        decreases ids@.len() - i,
    {
        if ids[i] == id {
            assert(ids@.contains(id));
            return Some(i);
        }
        i += 1;
    }
    None
}

impl WorkspaceView {
    /// No window is listed twice, and the focused window and every fullscreen
    /// window are among those listed.
    pub open spec fn sound(self) -> bool {
        &&& self.windows.no_duplicates()
        &&& self.focused matches Some(id) ==> self.windows.contains(id)
        &&& forall|id: WindowId| #[trigger] self.is_full(id) ==> self.windows.contains(id)
    }

    /// The workspace with `id` at the end of its windows, unless it is already
    /// there; the first window of a workspace without focus gets the focus.
    pub open spec fn added(self, id: WindowId) -> WorkspaceView {
        if self.windows.contains(id) {
            self
        } else {
            WorkspaceView {
                windows: self.windows.push(id),
                focused: if self.focused is None {
                    Some(id)
                } else {
                    self.focused
                },
                ..self
            }
        }
    }

    /// The workspace without `id`; if it had the focus, the last window gets it.
    pub open spec fn removed(self, id: WindowId) -> WorkspaceView {
        let windows = without(self.windows, id);
        WorkspaceView {
            windows,
            focused: if self.focused == Some(id) {
                if windows.len() == 0 {
                    None
                } else {
                    Some(windows.last())
                }
            } else {
                self.focused
            },
            fullscreen: self.fullscreen.remove(id.0),
            ..self
        }
    }

    /// The workspace with the windows of `gone` after its own.  They stay
    /// fullscreen if they were, and bring their focus where there is none.
    pub open spec fn joined(self, gone: WorkspaceView) -> WorkspaceView {
        WorkspaceView {
            windows: self.windows + gone.windows,
            focused: if self.focused is None {
                gone.focused
            } else {
                self.focused
            },
            fullscreen: self.fullscreen.union_prefer_right(gone.fullscreen),
            ..self
        }
    }

    pub open spec fn is_full(self, id: WindowId) -> bool {
        self.fullscreen.contains_key(id.0)
    }
}

impl View for Workspace {
    type V = WorkspaceView;

    open spec fn view(&self) -> WorkspaceView {
        WorkspaceView {
            name: self.name@,
            layout: self.layout,
            windows: self.windows@,
            focused: self.focused,
            fullscreen: self.fullscreen@,
        }
    }
}

impl Workspace {
    pub fn new(name: &str) -> (r: Self)
        ensures
            r@ == (WorkspaceView {
                name: name@,
                layout: LayoutKind::Fibonacci,
                windows: seq![],
                focused: None,
                fullscreen: Map::empty(),
            }),
    {
        Self {
            name: name.to_owned(),
            layout: LayoutKind::default(),
            windows: Vec::new(),
            focused: None,
            fullscreen: HashMap::new(),
        }
    }

    pub fn windows(&self) -> (r: &[WindowId])
        ensures
            r@ == self@.windows,
    {
        self.windows.as_slice()
    }

    /// Mutable access to the window order.
    pub fn windows_mut(&mut self) -> (r: &mut Vec<WindowId>)
        ensures
            r@ == old(self)@.windows,
            final(self)@ == (WorkspaceView { windows: final(r)@, ..old(self)@ }),
    {
        &mut self.windows
    }

    pub fn add_window(&mut self, id: WindowId)
        ensures
            final(self)@ == old(self)@.added(id),
    {
        if !self.contains(id) {
            self.windows.push(id);
            if self.focused.is_none() {
                self.focused = Some(id);
            }
        }
    }

    pub fn remove_window(&mut self, id: WindowId)
        ensures
            final(self)@ == old(self)@.removed(id),
    {
        let mut kept: Vec<WindowId> = Vec::new();
        let mut i: usize = 0;
        assert(self.windows@.take(0) =~= Seq::<WindowId>::empty());
        while i < self.windows.len()
            invariant
                i <= self.windows@.len(),
                *self == *old(self),
                kept@ == without(self.windows@.take(i as int), id),
            decreases self.windows@.len() - i,
        {
            let ghost seen = self.windows@.take(i + 1);
            assert(seen.drop_last() =~= self.windows@.take(i as int));
            assert(seen.last() == self.windows@[i as int]);
            if self.windows[i] != id {
                kept.push(self.windows[i]);
            }
            i += 1;
        }
        assert(self.windows@.take(i as int) =~= self.windows@);
        self.windows = kept;
        if self.focused == Some(id) {
            let n = self.windows.len();
            self.focused = if n == 0 {
                None
            } else {
                Some(self.windows[n - 1])
            };
        }
        self.fullscreen.remove(&id.0);
        assert(self.fullscreen@ =~= old(self).fullscreen@.remove(id.0));
    }

    /// Take in all windows of a workspace that is given up.
    pub fn absorb(&mut self, gone: Workspace)
        ensures
            final(self)@ == old(self)@.joined(gone@),
    {
        let ghost start = self.fullscreen@;
        let ids = gone.fullscreen_windows();
        let mut i: usize = 0;
        while i < ids.len()
            invariant
                i <= ids@.len(),
                forall|id: WindowId| #[trigger] ids@.contains(id) <==> gone@.is_full(id),
                self.name == old(self).name,
                self.layout == old(self).layout,
                self.windows == old(self).windows,
                self.focused == old(self).focused,
                forall|k: u64| #[trigger]
                    self.fullscreen@.contains_key(k) <==> start.contains_key(k) || ids@.take(
                        i as int,
                    ).contains(WindowId(k)),
                forall|k: u64| #[trigger]
                    self.fullscreen@.contains_key(k) ==> self.fullscreen@[k] == (if ids@.take(
                        i as int,
                    ).contains(WindowId(k)) {
                        gone.fullscreen@[k]
                    } else {
                        start[k]
                    }),
            decreases ids@.len() - i,
        {
            let id = ids[i];
            assert(ids@.contains(id));
            proof {
                let seen = ids@.take(i as int);
                let now = ids@.take(i + 1);
                assert(now =~= seen.push(id));
                assert forall|k: u64| #[trigger] now.contains(WindowId(k)) <==> seen.contains(
                    WindowId(k),
                ) || k == id.0 by {
                    if seen.contains(WindowId(k)) {
                        let j = choose|j: int| 0 <= j < seen.len() && seen[j] == WindowId(k);
                        assert(now[j] == WindowId(k));
                    }
                    assert(now[i as int] == id);
                }
            }
            match gone.fullscreen.get(&id.0) {
                Some(saved) => {
                    self.fullscreen.insert(id.0, *saved);
                },
                None => {},
            }
            i += 1;
        }
        assert(ids@.take(i as int) =~= ids@);
        assert forall|k: u64| ids@.contains(WindowId(k)) <==> #[trigger]
            gone.fullscreen@.contains_key(k) by {
            assert(gone@.is_full(WindowId(k)) == gone.fullscreen@.contains_key(k));
        }
        assert(self.fullscreen@ =~= start.union_prefer_right(gone.fullscreen@));
        let mut moved = gone.windows;
        self.windows.append(&mut moved);
        if self.focused.is_none() {
            self.focused = gone.focused;
        }
    }

    pub fn contains(&self, id: WindowId) -> (r: bool)
        ensures
            r == self@.windows.contains(id),
    {
        let mut i: usize = 0;
        while i < self.windows.len()
            invariant
                i <= self.windows@.len(),
                forall|j: int| 0 <= j < i ==> self.windows@[j] != id,
            decreases self.windows@.len() - i,
        {
            if self.windows[i] == id {
                return true;
            }
            i += 1;
        }
        false
    }

    // ── Fullscreen ───────────────────────────────────────────────────────────

    /// Whether `id` is currently tracked as fullscreen on this workspace.
    pub fn is_fullscreen(&self, id: WindowId) -> (r: bool)
        ensures
            r == self@.is_full(id),
    {
        self.fullscreen.contains_key(&id.0)
    }

    /// Mark `id` as fullscreen, saving `saved_geometry` for later restoration.
    pub fn enter_fullscreen(&mut self, id: WindowId, saved_geometry: Rect)
        ensures
            final(self)@ == (WorkspaceView {
                fullscreen: old(self)@.fullscreen.insert(id.0, saved_geometry),
                ..old(self)@
            }),
    {
        self.fullscreen.insert(id.0, saved_geometry);
    }

    /// Remove `id` from fullscreen tracking.  Returns the saved geometry if the
    /// window was fullscreen.
    pub fn exit_fullscreen(&mut self, id: WindowId) -> (r: Option<Rect>)
        ensures
            r == (if old(self)@.is_full(id) {
                Some(old(self)@.fullscreen[id.0])
            } else {
                None
            }),
            final(self)@ == (WorkspaceView {
                fullscreen: old(self)@.fullscreen.remove(id.0),
                ..old(self)@
            }),
    {
        let r = self.fullscreen.remove(&id.0);
        assert(self.fullscreen@ =~= old(self).fullscreen@.remove(id.0));
        r
    }

    /// All windows currently in fullscreen on this workspace, each once, in no
    /// particular order.
    pub fn fullscreen_windows(&self) -> (r: Vec<WindowId>)
        ensures
            r@.no_duplicates(),
            forall|id: WindowId| #[trigger] r@.contains(id) <==> self@.is_full(id),
    {
        let mut r: Vec<WindowId> = Vec::new();
        let ghost keys = vstd::std_specs::hash::spec_keys_iter(&self.fullscreen).remaining();
        for k in it: self.fullscreen.keys()
            invariant
                it.seq() == keys,
                r@.len() == it.index(),
                forall|j: int| 0 <= j < r@.len() ==> (#[trigger] r@[j]).0 == *keys[j],
        {
            r.push(WindowId(*k));
        }
        assert forall|id: WindowId| #[trigger] r@.contains(id) <==> self@.is_full(id) by {
            if self@.is_full(id) {
                assert(keys.unref().to_set().contains(id.0));
                let j = choose|j: int| 0 <= j < keys.unref().len() && keys.unref()[j] == id.0;
                assert(r@[j] == id);
            }
            if r@.contains(id) {
                let j = choose|j: int| 0 <= j < r@.len() && r@[j] == id;
                assert(keys.unref()[j] == id.0);
                assert(keys.unref().to_set().contains(id.0));
            }
        }
        r
    }
}

} // verus!
