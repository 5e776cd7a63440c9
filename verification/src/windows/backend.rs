//! The windows that the backend tracks, and what it makes of native events.

use crate::backend::Backend;
use crate::config::FloatRule;
use crate::error::{is_backend_error, Error};
use crate::event::{Event, KeybindingId};
use crate::geometry::{as_i32, wrap_i32};
use crate::hotkey::BindingMap;
use crate::layout::is_i32;
use crate::text::chars_of;
use crate::window::{first_window, index_of_window, window_refs, Rect, Window, WindowId};
use crate::windows::hotkeys::{entries_of, HotkeyManager};
use crate::windows::messages::{carried_event, event_of, Message, NativeEvent};
use crate::windows::native::{
    edges_fit, edges_rect, floats, is_manageable, manageable, rect_from_edges, should_float, Edges,
    NativeWindow,
};
use crate::windows::window::WindowsWindow;
use vstd::prelude::*;
use vstd::string::*;

verus! {

/// What a message calls for.
#[derive(Debug, Clone, Copy, PartialEq, Eq, Structural)]
pub enum Reaction {
    /// Report an event.
    Emit(Event),
    /// Wait for the next message.
    Wait,
    /// Hide a window again that the manager keeps hidden, and wait.
    Rehide { hwnd: isize },
    /// Report a new window; a floating one goes above the others first.
    Adopt { id: WindowId, hwnd: isize, floating: bool },
    /// Destroy a border overlay, if there is one, and report the end of its
    /// window.
    Forget { id: WindowId, overlay: isize },
    /// Put the border overlay of a window where the window is now, and wait.
    MoveOverlay { id: WindowId },
    /// Hide a border overlay, and wait.
    HideOverlay { overlay: isize },
    /// Hand the message to the window procedure, and wait.
    Dispatch,
}

/// The event that a reaction reports.
pub open spec fn reported(r: Reaction) -> Option<Event> {
    match r {
        Reaction::Emit(e) => Some(e),
        Reaction::Adopt { id, .. } => Some(Event::WindowCreated(id)),
        Reaction::Forget { id, .. } => Some(Event::WindowDestroyed(id)),
        _ => None,
    }
}

/// The event that a reaction reports.
pub fn event_to_report(r: Reaction) -> (e: Option<Event>)
    ensures
        e == reported(r),
{
    match r {
        Reaction::Emit(e) => Some(e),
        Reaction::Adopt { id, hwnd: _, floating: _ } => Some(Event::WindowCreated(id)),
        Reaction::Forget { id, overlay: _ } => Some(Event::WindowDestroyed(id)),
        _ => None,
    }
}

/// What the backend tracks after an event, and its reaction.
pub struct Roster {
    pub windows: Seq<WindowsWindow>,
    pub next_id: u64,
    pub reaction: Reaction,
}

// ── Tracking ─────────────────────────────────────────────────────────────────

/// Among the first `n` windows, the first with this handle; where `shown` is
/// set, only windows count that the manager does not keep hidden.
pub open spec fn index_of(ws: Seq<WindowsWindow>, hwnd: isize, shown: bool, n: int) -> Option<int>
    decreases n,
{
    if n <= 0 {
        None
    } else if let Some(i) = index_of(ws, hwnd, shown, n - 1) {
        Some(i)
    } else if ws[n - 1].hwnd == hwnd && !(shown && ws[n - 1].wm_hidden) {
        Some(n - 1)
    } else {
        None
    }
}

pub proof fn lemma_index_of(ws: Seq<WindowsWindow>, hwnd: isize, shown: bool, n: int)
    requires
        n <= ws.len(),
    ensures
        match index_of(ws, hwnd, shown, n) {
            Some(i) => 0 <= i < n && ws[i].hwnd == hwnd && !(shown && ws[i].wm_hidden),
            None => forall|j: int|
                0 <= j < n ==> !((#[trigger] ws[j]).hwnd == hwnd && !(shown && ws[j].wm_hidden)),
        },
    decreases n,
{
    if n > 0 {
        lemma_index_of(ws, hwnd, shown, n - 1);
    }
}

proof fn lemma_index_stays(ws: Seq<WindowsWindow>, hwnd: isize, shown: bool, k: int, n: int)
    requires
        k <= n,
        index_of(ws, hwnd, shown, k) is Some,
    ensures
        index_of(ws, hwnd, shown, n) == index_of(ws, hwnd, shown, k),
    decreases n,
{
    if k < n {
        lemma_index_stays(ws, hwnd, shown, k, n - 1);
    }
}

/// The record of a native window that is taken in.
pub open spec fn record_of(w: NativeWindow, id: WindowId, rules: Seq<FloatRule>) -> WindowsWindow {
    WindowsWindow {
        id,
        hwnd: w.hwnd,
        title: w.title,
        geometry: edges_rect(w.edges->0),
        floating: floats(w, rules),
        is_topmost: floats(w, rules),
        wm_hidden: false,
        overlay_hwnd: 0,
        border_width: 0,
        border_radius: 0,
    }
}

/// A record can be made of a native window: it has a title and a place.
pub open spec fn recordable(w: NativeWindow) -> bool {
    w.title@.len() > 0 && w.edges is Some
}

/// The place of a native window is representable.
pub open spec fn place_fits(w: NativeWindow) -> bool {
    w.edges matches Some(e) ==> edges_fit(e)
}

/// Make a record of a native window.
pub fn build_window(w: NativeWindow, id: WindowId, rules: &Vec<FloatRule>) -> (r: Option<
    WindowsWindow,
>)
    requires
        place_fits(w),
    ensures
        r == (if recordable(w) {
            Some(record_of(w, id, rules@))
        } else {
            None
        }),
{
    if chars_of(w.title.as_str()).len() == 0 {
        return None;
    }
    let geometry = match w.edges {
        Some(e) => rect_from_edges(e),
        None => {
            return None;
        },
    };
    let floating = should_float(&w, rules);
    Some(
        WindowsWindow {
            id,
            hwnd: w.hwnd,
            title: w.title,
            geometry,
            floating,
            is_topmost: floating,
            wm_hidden: false,
            overlay_hwnd: 0,
            border_width: 0,
            border_radius: 0,
        },
    )
}

/// Take in a native window, if it is to be managed.  Its number is used up even
/// if no record can be made of it.
pub open spec fn adopted(
    ws: Seq<WindowsWindow>,
    next_id: u64,
    rules: Seq<FloatRule>,
    seen: Option<NativeWindow>,
) -> Roster {
    match seen {
        Some(w) if manageable(w) => {
            let id = WindowId(next_id);
            let record = record_of(w, id, rules);
            if recordable(w) {
                Roster {
                    windows: ws.push(record),
                    next_id: (next_id + 1) as u64,
                    reaction: Reaction::Adopt { id, hwnd: w.hwnd, floating: record.floating },
                }
            } else {
                Roster { windows: ws, next_id: (next_id + 1) as u64, reaction: Reaction::Wait }
            }
        },
        _ => Roster { windows: ws, next_id, reaction: Reaction::Wait },
    }
}

/// The native windows among the first `n` found, taken in one after the other.
pub open spec fn adopted_all(
    ws: Seq<WindowsWindow>,
    next_id: u64,
    rules: Seq<FloatRule>,
    found: Seq<NativeWindow>,
    n: int,
) -> Roster
    decreases n,
{
    if n <= 0 {
        Roster { windows: ws, next_id, reaction: Reaction::Wait }
    } else {
        let before = adopted_all(ws, next_id, rules, found, n - 1);
        Roster {
            reaction: Reaction::Wait,
            ..adopted(before.windows, before.next_id, rules, Some(found[n - 1]))
        }
    }
}

// ── Native events ────────────────────────────────────────────────────────────

/// Distance of two numbers.
pub open spec fn apart(a: int, b: int) -> int {
    if a >= b {
        a - b
    } else {
        b - a
    }
}

/// Size of a native rectangle whose edges may be the wrong way round.
pub open spec fn size_of_edges(e: Edges) -> (int, int) {
    (apart(e.right as int, e.left as int), apart(e.bottom as int, e.top as int))
}

/// The rectangle at a native rectangle's corner, with its size.
pub open spec fn place_of(e: Edges) -> Rect {
    Rect {
        x: e.left,
        y: e.top,
        width: size_of_edges(e).0 as u32,
        height: size_of_edges(e).1 as u32,
    }
}

/// How far the width and the height of two rectangles differ.
pub open spec fn size_change(new: Rect, old: Rect) -> (int, int) {
    (
        apart(wrap_i32(new.width as int), wrap_i32(old.width as int)),
        apart(wrap_i32(new.height as int), wrap_i32(old.height as int)),
    )
}

/// The differences between a window's old and new place are representable.
pub open spec fn change_fits(e: Edges, old: Rect) -> bool {
    let new = place_of(e);
    &&& edges_fit(e)
    &&& is_i32(wrap_i32(new.width as int) - wrap_i32(old.width as int))
    &&& is_i32(wrap_i32(new.height as int) - wrap_i32(old.height as int))
    &&& is_i32(e.left - old.x)
    &&& is_i32(e.top - old.y)
}

/// The reaction to a change of place or size.  The border of a floating window
/// follows it at once; of a tiled window only a change of size counts that is
/// larger than its invisible resize borders.
pub open spec fn location_reaction(w: WindowsWindow, e: Edges) -> (Rect, Reaction) {
    let new = place_of(e);
    let d = size_change(new, w.geometry);
    if w.floating && (e.left != w.geometry.x || e.top != w.geometry.y || d.0 > 0 || d.1 > 0) {
        (
            new,
            if w.overlay_hwnd != 0 {
                Reaction::MoveOverlay { id: w.id }
            } else {
                Reaction::Wait
            },
        )
    } else if d.0 > 16 || d.1 > 16 {
        (new, Reaction::Emit(Event::WindowSizeChanged { id: w.id }))
    } else {
        (w.geometry, Reaction::Wait)
    }
}

/// The reaction to the end of a drag, of the whole window or of its border: the
/// window was moved or resized by the user.
pub open spec fn drag_reaction(w: WindowsWindow, edges: Option<Edges>) -> (Rect, Reaction) {
    let new = match edges {
        Some(e) => edges_rect(e),
        None => w.geometry,
    };
    (new, Reaction::Emit(Event::WindowMoved { id: w.id }))
}

/// What an event makes of the tracked windows.  `seen` is what the system
/// reports of the window, and `edges` where it stands.
pub open spec fn on_event(
    ws: Seq<WindowsWindow>,
    next_id: u64,
    rules: Seq<FloatRule>,
    event: NativeEvent,
    hwnd: isize,
    seen: Option<NativeWindow>,
    edges: Option<Edges>,
) -> Roster {
    let n = ws.len() as int;
    let at = index_of(ws, hwnd, false, n);
    let at_shown = index_of(ws, hwnd, true, n);
    let unchanged = Roster { windows: ws, next_id, reaction: Reaction::Wait };
    match event {
        NativeEvent::Shown => match at {
            Some(i) => if ws[i].wm_hidden {
                Roster { reaction: Reaction::Rehide { hwnd }, ..unchanged }
            } else {
                unchanged
            },
            None => adopted(ws, next_id, rules, seen),
        },
        NativeEvent::Destroyed => match at {
            Some(i) => Roster {
                windows: ws.remove(i),
                reaction: Reaction::Forget { id: ws[i].id, overlay: ws[i].overlay_hwnd },
                ..unchanged
            },
            None => unchanged,
        },
        NativeEvent::Focused => match at {
            Some(i) => Roster {
                reaction: Reaction::Emit(Event::WindowFocused(ws[i].id)),
                ..unchanged
            },
            None => adopted(ws, next_id, rules, seen),
        },
        NativeEvent::MoveSizeEnd => match at {
            Some(i) => {
                let (geometry, reaction) = drag_reaction(ws[i], edges);
                Roster {
                    windows: ws.update(i, WindowsWindow { geometry, ..ws[i] }),
                    reaction,
                    ..unchanged
                }
            },
            None => unchanged,
        },
        NativeEvent::MinimizeChange => match at {
            Some(i) => Roster {
                reaction: Reaction::Emit(Event::WindowMinimizeChanged { id: ws[i].id }),
                ..unchanged
            },
            None => unchanged,
        },
        NativeEvent::LocationChange => match (at_shown, edges) {
            (Some(i), Some(e)) => {
                let (geometry, reaction) = location_reaction(ws[i], e);
                Roster {
                    windows: ws.update(i, WindowsWindow { geometry, ..ws[i] }),
                    reaction,
                    ..unchanged
                }
            },
            _ => unchanged,
        },
        NativeEvent::AppHidden => match at_shown {
            Some(i) => if ws[i].overlay_hwnd != 0 {
                Roster {
                    reaction: Reaction::HideOverlay { overlay: ws[i].overlay_hwnd },
                    ..unchanged
                }
            } else {
                unchanged
            },
            None => unchanged,
        },
        NativeEvent::SettingsChanged => Roster {
            reaction: Reaction::Emit(Event::WorkAreaChanged),
            ..unchanged
        },
    }
}

/// There is a number left for a new window, and places and changes of place are
/// representable.
pub open spec fn native_ready(
    ws: Seq<WindowsWindow>,
    next_id: u64,
    event: NativeEvent,
    hwnd: isize,
    seen: Option<NativeWindow>,
    edges: Option<Edges>,
) -> bool {
    let n = ws.len() as int;
    match event {
        NativeEvent::Shown | NativeEvent::Focused => index_of(ws, hwnd, false, n) is None ==> {
            seen matches Some(w) ==> manageable(w) ==> next_id < u64::MAX && place_fits(w)
        },
        NativeEvent::MoveSizeEnd => index_of(ws, hwnd, false, n) is Some ==> {
            edges matches Some(e) ==> edges_fit(e)
        },
        NativeEvent::LocationChange => index_of(ws, hwnd, true, n) matches Some(i) ==> {
            edges matches Some(e) ==> change_fits(e, ws[i].geometry)
        },
        _ => true,
    }
}

/// Backend of the Win32 desktop.
#[derive(Debug)]
pub struct WindowsBackend {
    pub windows: Vec<WindowsWindow>,
    /// Number of the next new window.
    pub next_id: u64,
    pub hotkeys: HotkeyManager,
    pub float_rules: Vec<FloatRule>,
}

/// The backend after an event: the tracked windows and the next number are
/// those of `t`, and the rest is kept.
pub open spec fn tracks(before: WindowsBackend, after: WindowsBackend, t: Roster) -> bool {
    &&& after.windows@ == t.windows
    &&& after.next_id == t.next_id
    &&& after.hotkeys == before.hotkeys
    &&& after.float_rules == before.float_rules
}

fn distance(a: i32, b: i32) -> (r: i64)
    ensures
        r == apart(a as int, b as int),
{
    if a >= b {
        a as i64 - b as i64
    } else {
        b as i64 - a as i64
    }
}

fn size_between(a: i32, b: i32) -> (r: u32)
    requires
        is_i32(a - b),
    ensures
        r == apart(a as int, b as int),
{
    distance(a, b) as u32
}

fn follow_location(w: &WindowsWindow, e: Edges) -> (r: (Rect, Reaction))
    requires
        change_fits(e, w.geometry),
    ensures
        r == location_reaction(*w, e),
{
    let new = Rect::new(
        e.left,
        e.top,
        size_between(e.right, e.left),
        size_between(e.bottom, e.top),
    );
    let old = w.geometry;
    let dw = distance(as_i32(new.width), as_i32(old.width));
    let dh = distance(as_i32(new.height), as_i32(old.height));
    if w.floating && (e.left != old.x || e.top != old.y || dw > 0 || dh > 0) {
        (
            new,
            if w.overlay_hwnd != 0 {
                Reaction::MoveOverlay { id: w.id }
            } else {
                Reaction::Wait
            },
        )
    } else if dw > 16 || dh > 16 {
        (new, Reaction::Emit(Event::WindowSizeChanged { id: w.id }))
    } else {
        (old, Reaction::Wait)
    }
}

fn follow_drag(w: &WindowsWindow, edges: Option<Edges>) -> (r: (Rect, Reaction))
    requires
        edges matches Some(e) ==> edges_fit(e),
    ensures
        r == drag_reaction(*w, edges),
{
    let new = match edges {
        Some(e) => rect_from_edges(e),
        None => w.geometry,
    };
    (new, Reaction::Emit(Event::WindowMoved { id: w.id }))
}

impl WindowsBackend {
    /// Start with no windows; they are taken in by [`Self::enumerate_windows`].
    pub fn new(bindings: &BindingMap, float_rules: Vec<FloatRule>) -> (r: Result<Self, Error>)
        ensures
            r matches Ok(b) && {
                &&& b.windows@ == Seq::<WindowsWindow>::empty()
                &&& b.next_id == 1
                &&& b.hotkeys.entries@ == entries_of(bindings@)
                &&& b.float_rules == float_rules
            },
    {
        match HotkeyManager::register(bindings) {
            Ok(hotkeys) => Ok(
                WindowsBackend { windows: Vec::new(), next_id: 1, hotkeys, float_rules },
            ),
            Err(e) => Err(e),
        }
    }

    /// The first window with this handle; where `shown` is set, only windows
    /// count that the manager does not keep hidden.
    pub fn find_window(&self, hwnd: isize, shown: bool) -> (r: Option<usize>)
        ensures
            match r {
                Some(i) => i < self.windows@.len() && index_of(
                    self.windows@,
                    hwnd,
                    shown,
                    self.windows@.len() as int,
                ) == Some(i as int),
                None => index_of(self.windows@, hwnd, shown, self.windows@.len() as int) is None,
            },
    {
        let mut i: usize = 0;
        while i < self.windows.len()
            invariant
                i <= self.windows@.len(),
                index_of(self.windows@, hwnd, shown, i as int) is None,
            decreases self.windows@.len() - i,
        {
            if self.windows[i].hwnd == hwnd && !(shown && self.windows[i].wm_hidden) {
                proof {
                    lemma_index_stays(
                        self.windows@,
                        hwnd,
                        shown,
                        i + 1,
                        self.windows@.len() as int,
                    );
                }
                return Some(i);
            }
            i += 1;
        }
        None
    }

    /// Take in a native window, if it is to be managed.
    pub fn adopt(&mut self, seen: Option<NativeWindow>) -> (r: Reaction)
        requires
            seen matches Some(w) ==> manageable(w) ==> old(self).next_id < u64::MAX && place_fits(
                w,
            ),
        ensures
            tracks(
                *old(self),
                *final(self),
                adopted(old(self).windows@, old(self).next_id, old(self).float_rules@, seen),
            ),
            r == adopted(
                old(self).windows@,
                old(self).next_id,
                old(self).float_rules@,
                seen,
            ).reaction,
    {
        let w = match seen {
            Some(w) => w,
            None => {
                return Reaction::Wait;
            },
        };
        if !is_manageable(&w) {
            return Reaction::Wait;
        }
        let id = WindowId(self.next_id);
        self.next_id += 1;
        match build_window(w, id, &self.float_rules) {
            Some(record) => {
                let hwnd = record.hwnd;
                let floating = record.floating;
                self.windows.push(record);
                Reaction::Adopt { id, hwnd, floating }
            },
            None => Reaction::Wait,
        }
    }

    /// Take in the native windows that are there at startup.
    pub fn enumerate_windows(&mut self, found: Vec<NativeWindow>)
        requires
            old(self).next_id + found@.len() <= u64::MAX,
            forall|i: int|
                0 <= i < found@.len() ==> manageable(#[trigger] found@[i]) ==> place_fits(found@[i]),
        ensures
            tracks(
                *old(self),
                *final(self),
                adopted_all(
                    old(self).windows@,
                    old(self).next_id,
                    old(self).float_rules@,
                    found@,
                    found@.len() as int,
                ),
            ),
    {
        let ghost all = found@;
        let mut rest = found;
        let ghost mut i: int = 0;
        assert(all.skip(0) =~= all);
        while rest.len() > 0
            invariant
                0 <= i <= all.len(),
                rest@ == all.skip(i),
                old(self).next_id + all.len() <= u64::MAX,
                self.next_id <= old(self).next_id + i,
                forall|j: int|
                    0 <= j < all.len() ==> manageable(#[trigger] all[j]) ==> place_fits(all[j]),
                tracks(
                    *old(self),
                    *self,
                    adopted_all(
                        old(self).windows@,
                        old(self).next_id,
                        old(self).float_rules@,
                        all,
                        i,
                    ),
                ),
            decreases rest@.len(),
        {
            assert(rest@[0] == all[i]);
            let w = rest.remove(0);
            assert(rest@ =~= all.skip(i + 1));
            let _ = self.adopt(Some(w));
            proof {
                i = i + 1;
            }
        }
    }

    /// React to a native window event.  `seen` is what the system reports of
    /// the window, and `edges` where it stands.
    pub fn on_window_event(
        &mut self,
        event: NativeEvent,
        hwnd: isize,
        seen: Option<NativeWindow>,
        edges: Option<Edges>,
    ) -> (r: Reaction)
        requires
            native_ready(old(self).windows@, old(self).next_id, event, hwnd, seen, edges),
        ensures
            tracks(
                *old(self),
                *final(self),
                on_event(
                    old(self).windows@,
                    old(self).next_id,
                    old(self).float_rules@,
                    event,
                    hwnd,
                    seen,
                    edges,
                ),
            ),
            r == on_event(
                old(self).windows@,
                old(self).next_id,
                old(self).float_rules@,
                event,
                hwnd,
                seen,
                edges,
            ).reaction,
    {
        match event {
            NativeEvent::Shown => match self.find_window(hwnd, false) {
                Some(i) => if self.windows[i].wm_hidden {
                    Reaction::Rehide { hwnd }
                } else {
                    Reaction::Wait
                },
                None => self.adopt(seen),
            },
            NativeEvent::Destroyed => match self.find_window(hwnd, false) {
                Some(i) => {
                    let w = self.windows.remove(i);
                    Reaction::Forget { id: w.id, overlay: w.overlay_hwnd }
                },
                None => Reaction::Wait,
            },
            NativeEvent::Focused => match self.find_window(hwnd, false) {
                Some(i) => Reaction::Emit(Event::WindowFocused(self.windows[i].id)),
                None => self.adopt(seen),
            },
            NativeEvent::MoveSizeEnd => match self.find_window(hwnd, false) {
                Some(i) => {
                    let (geometry, reaction) = follow_drag(&self.windows[i], edges);
                    self.windows[i].geometry = geometry;
                    reaction
                },
                None => Reaction::Wait,
            },
            NativeEvent::MinimizeChange => match self.find_window(hwnd, false) {
                Some(i) => Reaction::Emit(
                    Event::WindowMinimizeChanged { id: self.windows[i].id },
                ),
                None => Reaction::Wait,
            },
            NativeEvent::LocationChange => match (self.find_window(hwnd, true), edges) {
                (Some(i), Some(e)) => {
                    let (geometry, reaction) = follow_location(&self.windows[i], e);
                    self.windows[i].geometry = geometry;
                    reaction
                },
                _ => Reaction::Wait,
            },
            NativeEvent::AppHidden => match self.find_window(hwnd, true) {
                Some(i) => if self.windows[i].overlay_hwnd != 0 {
                    Reaction::HideOverlay { overlay: self.windows[i].overlay_hwnd }
                } else {
                    Reaction::Wait
                },
                None => Reaction::Wait,
            },
            NativeEvent::SettingsChanged => Reaction::Emit(Event::WorkAreaChanged),
        }
    }
}

// ── Messages ─────────────────────────────────────────────────────────────────

/// What comes of taking a message from the queue: `status` is what the queue
/// said, negative one for a failure and zero for the end.
pub open spec fn on_message_outcome(
    b: WindowsBackend,
    status: i32,
    message: Message,
    seen: Option<NativeWindow>,
    edges: Option<Edges>,
) -> Roster {
    let unchanged = Roster {
        windows: b.windows@,
        next_id: b.next_id,
        reaction: Reaction::Wait,
    };
    if status == 0 {
        Roster { reaction: Reaction::Emit(Event::Quit), ..unchanged }
    } else {
        match message {
            Message::Hotkey(n) => Roster {
                reaction: Reaction::Emit(
                    Event::Keybinding(KeybindingId((n as int % 0x1_0000_0000) as u32)),
                ),
                ..unchanged
            },
            Message::Quit => Roster { reaction: Reaction::Emit(Event::Quit), ..unchanged },
            Message::WindowEvent { number, hwnd } => match carried_event(number) {
                Some(event) => on_event(
                    b.windows@,
                    b.next_id,
                    b.float_rules@,
                    event,
                    hwnd,
                    seen,
                    edges,
                ),
                None => unchanged,
            },
            Message::Other => Roster { reaction: Reaction::Dispatch, ..unchanged },
        }
    }
}

/// A native window event that a message carries can be reacted to.
pub open spec fn message_ready(
    b: WindowsBackend,
    message: Message,
    seen: Option<NativeWindow>,
    edges: Option<Edges>,
) -> bool {
    message matches Message::WindowEvent { number, hwnd } ==> (carried_event(number) matches Some(
        event,
    ) ==> native_ready(b.windows@, b.next_id, event, hwnd, seen, edges))
}

impl WindowsBackend {
    /// React to what was taken from the message queue.
    pub fn on_message(
        &mut self,
        status: i32,
        message: Message,
        seen: Option<NativeWindow>,
        edges: Option<Edges>,
    ) -> (r: Result<Reaction, Error>)
        requires
            message_ready(*old(self), message, seen, edges),
        ensures
            match r {
                Ok(reaction) => status != -1 && tracks(
                    *old(self),
                    *final(self),
                    on_message_outcome(*old(self), status, message, seen, edges),
                ) && reaction == on_message_outcome(
                    *old(self),
                    status,
                    message,
                    seen,
                    edges,
                ).reaction,
                Err(e) => status == -1 && is_backend_error(e, "GetMessageW failed"@)
                    && *final(self) == *old(self),
            },
    {
        if status == -1 {
            return Err(Error::Backend("GetMessageW failed".to_owned()));
        }
        if status == 0 {
            return Ok(Reaction::Emit(Event::Quit));
        }
        match message {
            Message::Hotkey(n) => Ok(Reaction::Emit(Event::Keybinding(HotkeyManager::resolve(n)))),
            Message::Quit => Ok(Reaction::Emit(Event::Quit)),
            Message::WindowEvent { number, hwnd } => match event_of(number) {
                Some(event) => Ok(self.on_window_event(event, hwnd, seen, edges)),
                None => Ok(Reaction::Wait),
            },
            Message::Other => Ok(Reaction::Dispatch),
        }
    }
}

/// Away from the Win32 desktop there are no events, and one assumed monitor.
impl Backend for WindowsBackend {
    type W = WindowsWindow;

    fn windows(&self) -> (r: Vec<&WindowsWindow>)
        ensures
            r@.len() == self.windows@.len(),
            forall|i: int| 0 <= i < r@.len() ==> *(#[trigger] r@[i]) == self.windows@[i],
    {
        window_refs(&self.windows)
    }

    fn window_mut(&mut self, id: WindowId) -> (r: Option<&mut WindowsWindow>)
        ensures
            match r {
                Some(w) => exists|i: int|
                    #[trigger] first_window(old(self).windows@, id, i) && *w == old(
                        self,
                    ).windows@[i] && final(self).windows@ == old(self).windows@.update(
                        i,
                        *final(w),
                    ),
                None => final(self).windows@ == old(self).windows@ && forall|i: int|
                    0 <= i < old(self).windows@.len() ==> (#[trigger] old(self).windows@[i]).id
                        != id,
            },
            final(self).next_id == old(self).next_id,
            final(self).hotkeys == old(self).hotkeys,
            final(self).float_rules == old(self).float_rules,
    {
        match index_of_window(&self.windows, id) {
            Some(i) => Some(&mut self.windows[i]),
            None => None,
        }
    }

    fn next_event(&mut self) -> (r: Result<Event, Error>)
        ensures
            r matches Err(e) && is_backend_error(
                e,
                "Win32 backend unavailable on this platform"@,
            ),
            *final(self) == *old(self),
    {
        Err(Error::Backend("Win32 backend unavailable on this platform".to_owned()))
    }

    fn flush(&mut self) -> (r: Result<(), Error>)
        ensures
            r is Ok,
            *final(self) == *old(self),
    {
        Ok(())
    }

    fn monitor_rect(&self) -> (r: Rect)
        ensures
            r == (Rect { x: 0, y: 0, width: 1920, height: 1080 }),
    {
        Rect::new(0, 0, 1920, 1080)
    }
}

} // verus!
