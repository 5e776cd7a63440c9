//! Border overlays: companion windows in the shape of a hollow ring.

use crate::geometry::{as_i32, expand_fits, expand_rect, expanded_rect, wrap_i32};
use crate::layout::is_i32;
use crate::window::Rect;
use crate::windows::native::{frame_fits, visible_part, visible_rect, Edges};
use vstd::prelude::*;

verus! {

/// The visible region of an overlay: an outer rectangle from its corner, minus
/// an inner one.  An ellipse of zero means square corners.
#[derive(Debug, Clone, Copy, PartialEq, Eq, Structural)]
pub struct Ring {
    pub width: i32,
    pub height: i32,
    pub outer_ellipse: i32,
    pub inner: Edges,
    pub inner_ellipse: i32,
}

/// The larger of two numbers.
pub open spec fn larger(a: int, b: int) -> int {
    if a >= b {
        a
    } else {
        b
    }
}

/// The ring of a border around a rectangle can be computed in 32-bit numbers.
pub open spec fn ring_fits(rect: Rect, border_width: u32, radius: u32) -> bool {
    let b = wrap_i32(border_width as int);
    let r = wrap_i32(radius as int);
    &&& r > 0 ==> is_i32(r * 2)
    &&& is_i32(r - b)
    &&& r > b ==> is_i32((r - b) * 2)
    &&& is_i32(wrap_i32(rect.width as int) - b)
    &&& is_i32(wrap_i32(rect.height as int) - b)
    &&& is_i32(b + 1)
}

/// The ring of a border: its hole is inset by the border's width, at least one
/// pixel large, and its corners are rounded by what the border leaves of the
/// radius.
pub open spec fn ring_of(rect: Rect, border_width: u32, radius: u32) -> Ring {
    let b = wrap_i32(border_width as int);
    let r = wrap_i32(radius as int);
    let w = wrap_i32(rect.width as int);
    let h = wrap_i32(rect.height as int);
    Ring {
        width: w as i32,
        height: h as i32,
        outer_ellipse: (larger(r, 0) * 2) as i32,
        inner: Edges {
            left: b as i32,
            top: b as i32,
            right: larger(w - b, b + 1) as i32,
            bottom: larger(h - b, b + 1) as i32,
        },
        inner_ellipse: (larger(r - b, 0) * 2) as i32,
    }
}

fn max_i32(a: i32, b: i32) -> (r: i32)
    ensures
        r == larger(a as int, b as int),
{
    if a >= b {
        a
    } else {
        b
    }
}

/// The ring of a border around a rectangle.
pub fn ring(rect: Rect, border_width: u32, radius: u32) -> (s: Ring)
    requires
        ring_fits(rect, border_width, radius),
    ensures
        s == ring_of(rect, border_width, radius),
{
    let b = as_i32(border_width);
    let r = as_i32(radius);
    let w = as_i32(rect.width);
    let h = as_i32(rect.height);
    Ring {
        width: w,
        height: h,
        outer_ellipse: max_i32(r, 0) * 2,
        inner: Edges {
            left: b,
            top: b,
            right: max_i32(w - b, b + 1),
            bottom: max_i32(h - b, b + 1),
        },
        inner_ellipse: max_i32(r - b, 0) * 2,
    }
}

/// The hole of a ring is never empty, and where the window is larger than its
/// two borders it keeps the border's width from every edge.
pub proof fn ring_leaves_the_window_open(rect: Rect, border_width: u32, radius: u32)
    requires
        ring_fits(rect, border_width, radius),
        border_width <= i32::MAX,
        2 * border_width < rect.width <= i32::MAX,
        2 * border_width < rect.height <= i32::MAX,
    ensures
        ({
            let s = ring_of(rect, border_width, radius);
            &&& s.inner.left == border_width && s.inner.top == border_width
            &&& s.width - s.inner.right == border_width && s.height - s.inner.bottom == border_width
            &&& s.inner.left < s.inner.right && s.inner.top < s.inner.bottom
        }),
{
}

/// Where an overlay goes: the visible part of its window, grown by the border
/// on every side.
pub fn overlay_rect(frame: Option<Edges>, geometry: Rect, border_width: u32) -> (r: Rect)
    requires
        frame_fits(frame),
        expand_fits(visible_part(frame, geometry), wrap_i32(border_width as int) as i32),
    ensures
        r == expanded_rect(
            visible_part(frame, geometry),
            wrap_i32(border_width as int) as i32,
        ),
{
    expand_rect(visible_rect(frame, geometry), as_i32(border_width))
}

} // verus!
