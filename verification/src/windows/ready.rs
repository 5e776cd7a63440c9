//! Tests of what reactions need: a number for a new window, and room for 32-bit
//! arithmetic.

use crate::geometry::{as_i32, expand_fits, fits_i32, wrap_i32};
use crate::layout::is_i32;
use crate::window::Rect;
use crate::windows::backend::{
    change_fits, message_ready, native_ready, place_fits, place_of, WindowsBackend,
};
use crate::windows::messages::{event_of, Message, NativeEvent};
use crate::windows::native::{
    edges_fit, frame_fits, is_manageable, manageable, visible_part, visible_rect, Edges,
    NativeWindow,
};
use crate::windows::overlay::ring_fits;
use vstd::prelude::*;

verus! {

/// Whether a native rectangle can be measured.
pub fn edges_are_fit(e: Edges) -> (r: bool)
    ensures
        r == edges_fit(e),
{
    fits_i32(e.right as i64 - e.left as i64) && fits_i32(e.bottom as i64 - e.top as i64)
}

/// Whether the place of a native window can be measured.
pub fn place_is_fit(w: &NativeWindow) -> (r: bool)
    ensures
        r == place_fits(*w),
{
    match w.edges {
        Some(e) => edges_are_fit(e),
        None => true,
    }
}

/// The length of a side, read as a signed number.
fn signed_side(a: i32, b: i32) -> (r: i64)
    requires
        is_i32(a - b),
    ensures
        r == wrap_i32(crate::windows::backend::apart(a as int, b as int)),
{
    let d: i64 = if a >= b {
        a as i64 - b as i64
    } else {
        b as i64 - a as i64
    };
    if d <= 0x7fff_ffff {
        d
    } else {
        d - 0x1_0000_0000
    }
}

/// Whether the change from a window's old place to a new one can be measured.
pub fn change_is_fit(e: Edges, old: Rect) -> (r: bool)
    ensures
        r == change_fits(e, old),
{
    if !edges_are_fit(e) {
        return false;
    }
    let width = signed_side(e.right, e.left);
    let height = signed_side(e.bottom, e.top);
    assert(width == wrap_i32(place_of(e).width as int));
    assert(height == wrap_i32(place_of(e).height as int));
    fits_i32(width - as_i32(old.width) as i64) && fits_i32(height - as_i32(old.height) as i64)
        && fits_i32(e.left as i64 - old.x as i64) && fits_i32(e.top as i64 - old.y as i64)
}

/// Whether the frame that the compositor reports can be measured.
fn frame_is_fit(frame: Option<Edges>) -> (r: bool)
    ensures
        r == frame_fits(frame),
{
    match frame {
        Some(e) => fits_i32(e.right as i64 - e.left as i64) && (e.right <= e.left || fits_i32(
            e.bottom as i64 - e.top as i64,
        )),
        None => true,
    }
}

/// Whether the place of a border around a window can be computed.
pub fn overlay_is_ready(frame: Option<Edges>, geometry: Rect, border_width: u32) -> (r: bool)
    ensures
        r == (frame_fits(frame) && expand_fits(
            visible_part(frame, geometry),
            wrap_i32(border_width as int) as i32,
        )),
{
    if !frame_is_fit(frame) {
        return false;
    }
    let part = visible_rect(frame, geometry);
    let b = as_i32(border_width) as i64;
    fits_i32(part.x as i64 - b) && fits_i32(part.y as i64 - b) && fits_i32(b * 2) && fits_i32(
        as_i32(part.width) as i64 + b * 2,
    ) && fits_i32(as_i32(part.height) as i64 + b * 2)
}

/// Whether the ring of a border around a rectangle can be computed.
pub fn ring_is_ready(rect: Rect, border_width: u32, radius: u32) -> (r: bool)
    ensures
        r == ring_fits(rect, border_width, radius),
{
    let b = as_i32(border_width) as i64;
    let r = as_i32(radius) as i64;
    (r <= 0 || fits_i32(r * 2)) && fits_i32(r - b) && (r <= b || fits_i32((r - b) * 2))
        && fits_i32(as_i32(rect.width) as i64 - b) && fits_i32(as_i32(rect.height) as i64 - b)
        && fits_i32(b + 1)
}

impl WindowsBackend {
    /// Whether the native windows that are there at startup can be taken in.
    pub fn enumeration_is_ready(&self, found: &Vec<NativeWindow>) -> (r: bool)
        ensures
            r == (self.next_id + found@.len() <= u64::MAX && forall|i: int|
                0 <= i < found@.len() ==> manageable(#[trigger] found@[i]) ==> place_fits(
                    found@[i],
                )),
    {
        if found.len() as u64 > u64::MAX - self.next_id {
            return false;
        }
        let mut i: usize = 0;
        while i < found.len()
            invariant
                i <= found@.len(),
                forall|j: int|
                    0 <= j < i ==> manageable(#[trigger] found@[j]) ==> place_fits(found@[j]),
            decreases found@.len() - i,
        {
            if is_manageable(&found[i]) && !place_is_fit(&found[i]) {
                assert(manageable(found@[i as int]) && !place_fits(found@[i as int]));
                return false;
            }
            i += 1;
        }
        true
    }

    fn adoption_is_ready(&self, seen: &Option<NativeWindow>) -> (r: bool)
        ensures
            r == (*seen matches Some(w) ==> manageable(w) ==> self.next_id < u64::MAX
                && place_fits(w)),
    {
        match seen {
            Some(w) => !is_manageable(w) || (self.next_id < u64::MAX && place_is_fit(w)),
            None => true,
        }
    }

    /// Whether a native window event can be reacted to.
    pub fn event_is_ready(
        &self,
        event: NativeEvent,
        hwnd: isize,
        seen: &Option<NativeWindow>,
        edges: Option<Edges>,
    ) -> (r: bool)
        ensures
            r == native_ready(self.windows@, self.next_id, event, hwnd, *seen, edges),
    {
        match event {
            NativeEvent::Shown | NativeEvent::Focused => match self.find_window(hwnd, false) {
                Some(_) => true,
                None => self.adoption_is_ready(seen),
            },
            NativeEvent::MoveSizeEnd => match (self.find_window(hwnd, false), edges) {
                (Some(_), Some(e)) => edges_are_fit(e),
                _ => true,
            },
            NativeEvent::LocationChange => match (self.find_window(hwnd, true), edges) {
                (Some(i), Some(e)) => change_is_fit(e, self.windows[i].geometry),
                _ => true,
            },
            _ => true,
        }
    }

    /// Whether a message can be reacted to.
    pub fn message_is_ready(
        &self,
        message: Message,
        seen: &Option<NativeWindow>,
        edges: Option<Edges>,
    ) -> (r: bool)
        ensures
            r == message_ready(*self, message, *seen, edges),
    {
        match message {
            Message::WindowEvent { number, hwnd } => match event_of(number) {
                Some(event) => self.event_is_ready(event, hwnd, seen, edges),
                None => true,
            },
            _ => true,
        }
    }
}

} // verus!
