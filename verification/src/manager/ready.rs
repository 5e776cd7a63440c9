//! Tests of what reactions need: monitor areas, and room for 32-bit arithmetic.

use crate::event::Event;
use crate::geometry::{as_i32, centre, centre_fits, distance_fits, fits_i32};
use crate::layout::is_i32;
use crate::manager::events::{
    event_ready, lemma_monitor_at, lemma_seeded, monitor_at, monitor_found, move_ready, seed_ready,
    seeded, window_centre, Facts,
};
use crate::manager::info::{find_info, info_of, is_tileable, tileable, WindowInfo};
use crate::manager::state::{find_monitor_idx, visible_place, Manager, ManagerState};
use crate::window::{Rect, WindowId};
use vstd::prelude::*;

verus! {

/// The centre of a rectangle, in wide numbers.
fn wide_centre(r: Rect) -> (c: (i64, i64))
    ensures
        c.0 == centre(r).0,
        c.1 == centre(r).1,
        -0x1_0000_0000 <= c.0 <= 0x1_0000_0000,
        -0x1_0000_0000 <= c.1 <= 0x1_0000_0000,
{
    let w = as_i32(r.width);
    let h = as_i32(r.height);
    (r.x as i64 + (w / 2) as i64, r.y as i64 + (h / 2) as i64)
}

fn distance_is_fit(a: (i64, i64), b: (i64, i64)) -> (r: bool)
    requires
        -0x1_0000_0000 <= a.0 <= 0x1_0000_0000,
        -0x1_0000_0000 <= a.1 <= 0x1_0000_0000,
        -0x1_0000_0000 <= b.0 <= 0x1_0000_0000,
        -0x1_0000_0000 <= b.1 <= 0x1_0000_0000,
    ensures
        r == distance_fits((a.0 as int, a.1 as int), (b.0 as int, b.1 as int)),
{
    let dx: i64 = a.0 - b.0;
    let dy: i64 = a.1 - b.1;
    if !fits_i32(dx) || !fits_i32(dy) {
        return false;
    }
    assert(0 <= dx * dx <= 0x4000_0000_0000_0000 && 0 <= dy * dy <= 0x4000_0000_0000_0000)
        by (nonlinear_arith)
        requires
            -0x8000_0000 <= dx <= 0x7fff_ffff,
            -0x8000_0000 <= dy <= 0x7fff_ffff,
    ;
    let xx: i64 = dx * dx;
    let yy: i64 = dy * dy;
    xx <= i64::MAX - yy
}

/// Which workspace a window standing at `x` joins.
spec fn target_ws(s: ManagerState, x: i32) -> int {
    s.monitor_ws[monitor_at(s, x)] as int
}

proof fn lemma_seeded_empty(s: ManagerState, infos: Seq<WindowInfo>, n: int, ws: int)
    requires
        s.wf(),
        0 <= n <= infos.len(),
        0 <= ws < s.workspaces.len(),
        forall|i: int|
            0 <= i < infos.len() ==> monitor_found(s, (#[trigger] infos[i]).work_rect.x),
    ensures
        seeded(s, infos, n).workspaces[ws].windows.len() == 0 <==> s.workspaces[ws].windows.len()
            == 0 && forall|i: int|
            0 <= i < n ==> target_ws(s, (#[trigger] infos[i]).work_rect.x) != ws,
    decreases n,
{
    if n > 0 {
        lemma_seeded_empty(s, infos, n - 1, ws);
        lemma_seeded(s, infos, n - 1);
        let before = seeded(s, infos, n - 1);
        let x = infos[n - 1].work_rect.x;
        assert(monitor_found(s, x));
        lemma_monitor_at(s, x);
        assert(s.monitor_ws[monitor_at(s, x)] < s.workspaces.len());
        let t = target_ws(s, x);
        if t == ws {
            let w = before.workspaces[ws];
            if w.windows.contains(infos[n - 1].id) {
                assert(w.windows.len() > 0);
            }
            assert(target_ws(s, infos[n - 1].work_rect.x) == ws);
        }
    }
}

impl Manager {
    /// Whether the monitor that a window standing at `x` belongs to can be found
    /// and shows a workspace.
    pub fn monitor_is_found(&self, x: i32) -> (r: bool)
        ensures
            r == monitor_found(self@, x),
    {
        let mut m: usize = 0;
        while m < self.monitor_rects.len()
            invariant
                m <= self.monitor_rects@.len(),
                forall|k: int|
                    0 <= k < m ==> -i32::MAX <= (#[trigger] self.monitor_rects@[k]).x - x
                        <= i32::MAX,
            decreases self.monitor_rects@.len() - m,
        {
            let d: i64 = self.monitor_rects[m].x as i64 - x as i64;
            if !(-0x7fff_ffff <= d && d <= 0x7fff_ffff) {
                assert(!(-i32::MAX <= self.monitor_rects@[m as int].x - x <= i32::MAX));
                return false;
            }
            m += 1;
        }
        find_monitor_idx(&self.monitor_rects, x) < self.monitor_ws.len()
    }

    /// Whether the windows that are there at startup can be taken in.
    pub fn seed_is_ready(&self, infos: &Vec<WindowInfo>) -> (r: bool)
        requires
            self@.wf(),
        ensures
            r == seed_ready(self@, infos@),
    {
        let ghost s = self@;
        let mut targets: Vec<usize> = Vec::new();
        let mut i: usize = 0;
        while i < infos.len()
            invariant
                i <= infos@.len(),
                s == self@,
                s.wf(),
                targets@.len() == i,
                forall|k: int|
                    0 <= k < i ==> monitor_found(s, (#[trigger] infos@[k]).work_rect.x)
                        && targets@[k] == target_ws(s, infos@[k].work_rect.x),
            decreases infos@.len() - i,
        {
            let x = infos[i].work_rect.x;
            if !self.monitor_is_found(x) {
                assert(!monitor_found(s, infos@[i as int].work_rect.x));
                return false;
            }
            targets.push(self.monitor_ws[find_monitor_idx(&self.monitor_rects, x)]);
            i += 1;
        }
        let ghost end = seeded(s, infos@, infos@.len() as int);
        let mut m: usize = self.monitor_rects.len();
        while m < self.monitor_ws.len()
            invariant
                s == self@,
                s.wf(),
                s.monitor_rects.len() <= m,
                end == seeded(s, infos@, infos@.len() as int),
                targets@.len() == infos@.len(),
                forall|k: int|
                    0 <= k < infos@.len() ==> monitor_found(s, (#[trigger] infos@[k]).work_rect.x)
                        && targets@[k] == target_ws(s, infos@[k].work_rect.x),
                forall|k: int|
                    s.monitor_rects.len() <= k < m && k < s.monitor_ws.len()
                        ==> end.workspaces[(#[trigger] s.monitor_ws[k]) as int].windows.len() == 0,
            decreases self.monitor_ws@.len() - m,
        {
            let ws = self.monitor_ws[m];
            assert(s.monitor_ws[m as int] < s.workspaces.len());
            proof {
                lemma_seeded_empty(s, infos@, infos@.len() as int, ws as int);
            }
            if self.workspaces[ws].windows.len() > 0 {
                assert(end.workspaces[s.monitor_ws[m as int] as int].windows.len() != 0);
                return false;
            }
            let mut k: usize = 0;
            while k < targets.len()
                invariant
                    k <= targets@.len(),
                    targets@.len() == infos@.len(),
                    s.monitor_rects.len() <= m < s.monitor_ws.len(),
                    ws == s.monitor_ws[m as int],
                    s == self@,
                    end == seeded(s, infos@, infos@.len() as int),
                    end.workspaces[ws as int].windows.len() == 0 <==> (
                    s.workspaces[ws as int].windows.len() == 0 && forall|i: int|
                        0 <= i < infos@.len() ==> target_ws(
                            s,
                            (#[trigger] infos@[i]).work_rect.x,
                        ) != ws),
                    forall|i: int|
                        0 <= i < infos@.len() ==> targets@[i] == target_ws(
                            s,
                            (#[trigger] infos@[i]).work_rect.x,
                        ),
                    forall|i: int|
                        0 <= i < k ==> target_ws(s, (#[trigger] infos@[i]).work_rect.x) != ws,
                decreases targets@.len() - k,
            {
                if targets[k] == ws {
                    assert(target_ws(s, infos@[k as int].work_rect.x) == ws);
                    assert(end.workspaces[s.monitor_ws[m as int] as int].windows.len() != 0);
                    return false;
                }
                assert(target_ws(s, infos@[k as int].work_rect.x) != ws);
                k += 1;
            }
            m += 1;
        }
        true
    }

    fn move_is_ready(&self, id: WindowId, infos: &Vec<WindowInfo>) -> (r: bool)
        requires
            self@.wf(),
        ensures
            r == move_ready(self@, id, infos@),
    {
        let (ws, mon) = match self.find_visible_ws_and_mon(id) {
            Some(place) => place,
            None => {
                return true;
            },
        };
        assert(self@.monitor_ws[mon as int] < self@.workspaces.len());
        let w = match find_info(infos, id) {
            Some(w) => w,
            None => {
                return true;
            },
        };
        if w.floating {
            return true;
        }
        if !self.monitor_is_found(w.geometry.x) || mon >= self.monitor_rects.len() {
            return false;
        }
        if find_monitor_idx(&self.monitor_rects, w.geometry.x) != mon {
            return true;
        }
        let p = wide_centre(w.geometry);
        if !fits_i32(p.0) || !fits_i32(p.1) {
            return false;
        }
        let ids = &self.workspaces[ws].windows;
        let mut i: usize = 0;
        while i < ids.len()
            invariant
                i <= ids@.len(),
                p.0 == centre(w.geometry).0,
                p.1 == centre(w.geometry).1,
                -0x1_0000_0000 <= p.0 <= 0x1_0000_0000,
                -0x1_0000_0000 <= p.1 <= 0x1_0000_0000,
                forall|k: int|
                    0 <= k < i && (#[trigger] ids@[k]) != id && tileable(infos@, ids@[k])
                        ==> centre_fits(info_of(infos@, ids@[k])->0.geometry) && distance_fits(
                        centre(w.geometry),
                        window_centre(infos@, ids@[k]),
                    ),
                ids@ == self@.workspaces[ws as int].windows,
                self@.wf(),
                visible_place(self@, id) == Some((ws, mon as int)),
                info_of(infos@, id) == Some(*w),
                !w.floating,
                monitor_found(self@, w.geometry.x),
                monitor_at(self@, w.geometry.x) == mon,
                mon < self@.monitor_rects.len(),
                centre_fits(w.geometry),
            decreases ids@.len() - i,
        {
            let other = ids[i];
            if other != id && is_tileable(infos, other) {
                match find_info(infos, other) {
                    Some(o) => {
                        let q = wide_centre(o.geometry);
                        if !fits_i32(q.0) || !fits_i32(q.1) || !distance_is_fit(p, q) {
                            assert(ids@[i as int] == other);
                            return false;
                        }
                    },
                    None => {},
                }
            }
            i += 1;
        }
        true
    }

    /// Whether the reaction to an event can be computed.
    pub fn event_is_ready(&self, event: Event, facts: &Facts, infos: &Vec<WindowInfo>) -> (r: bool)
        requires
            self@.wf(),
        ensures
            r == event_ready(self@, event, *facts, infos@),
    {
        match event {
            Event::WindowCreated(_) => self.monitor_rects.len() > 0 && self.monitor_is_found(
                facts.window_area.x,
            ),
            Event::WindowDestroyed(_) => self.monitor_ws.len() <= self.monitor_rects.len(),
            Event::WindowFocused(id) => {
                self.find_visible_ws_and_mon(id).is_some() || self.find_any_workspace(id).is_none()
                    || self.monitor_rects.len() > 0
            },
            Event::WindowMoved { id } => self.move_is_ready(id, infos),
            Event::WindowMinimizeChanged { id } => match self.find_visible_ws_and_mon(id) {
                Some((_, mon)) => mon < self.monitor_rects.len(),
                None => true,
            },
            Event::WorkAreaChanged => self.monitor_ws.len() <= facts.monitor_rects.len(),
            _ => true,
        }
    }
}

} // verus!
