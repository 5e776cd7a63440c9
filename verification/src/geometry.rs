//! Rectangle arithmetic in 32-bit pixel coordinates.

use crate::config::Padding;
use crate::layout::is_i32;
use crate::window::Rect;
use vstd::prelude::*;

verus! {

/// The value of a 32-bit pattern read as a signed number.
pub open spec fn wrap_i32(u: int) -> int {
    if u <= i32::MAX {
        u
    } else {
        u - 0x1_0000_0000
    }
}

/// Read a 32-bit pattern as a signed number.
pub fn as_i32(u: u32) -> (r: i32)
    ensures
        r == wrap_i32(u as int),
{
    assert(u as i32 == (if u <= 0x7fff_ffff {
        u as int
    } else {
        u - 0x1_0000_0000
    })) by (bit_vector);
    u as i32
}

/// Whether a wide number is an `i32`.
pub fn fits_i32(v: i64) -> (r: bool)
    ensures
        r == is_i32(v as int),
{
    -0x8000_0000 <= v && v <= 0x7fff_ffff
}

/// The value of a 32-bit pattern read as an unsigned number.
pub open spec fn wrap_u32(i: int) -> int {
    if i >= 0 {
        i
    } else {
        i + 0x1_0000_0000
    }
}

/// Read a 32-bit pattern as an unsigned number.
pub fn as_u32(i: i32) -> (r: u32)
    ensures
        r == wrap_u32(i as int),
{
    assert(i as u32 == (if i >= 0 {
        i as int
    } else {
        i + 0x1_0000_0000
    })) by (bit_vector);
    i as u32
}

/// `a - b`, or zero where that is negative.
pub open spec fn minus(a: int, b: int) -> int {
    if a >= b {
        a - b
    } else {
        0
    }
}

fn saturating_minus(a: u32, b: u32) -> (r: u32)
    ensures
        r == minus(a as int, b as int),
{
    if a >= b {
        a - b
    } else {
        0
    }
}

// ── Gaps and padding ─────────────────────────────────────────────────────────

/// `r` can be inset by `gap` in 32-bit coordinates.
pub open spec fn inset_fits(r: Rect, gap: u32) -> bool {
    &&& 2 * gap <= u32::MAX
    &&& is_i32(r.x + gap)
    &&& is_i32(r.y + gap)
}

/// Whether `gap` pixels can be taken off each side of `r`.
pub fn inset_is_fit(r: Rect, gap: u32) -> (b: bool)
    ensures
        b == inset_fits(r, gap),
{
    gap <= 0x7fff_ffff && fits_i32(r.x as i64 + gap as i64) && fits_i32(r.y as i64 + gap as i64)
}

/// `r` with `gap` pixels taken off each side; a side shorter than both gaps
/// becomes zero.
pub open spec fn inset_rect(r: Rect, gap: u32) -> Rect {
    Rect {
        x: (r.x + gap) as i32,
        y: (r.y + gap) as i32,
        width: minus(r.width as int, 2 * gap) as u32,
        height: minus(r.height as int, 2 * gap) as u32,
    }
}

/// Shrink `r` by `gap` pixels on each side.
pub fn inset(r: Rect, gap: u32) -> (s: Rect)
    requires
        inset_fits(r, gap),
    ensures
        s == inset_rect(r, gap),
{
    let g = gap as i32;
    Rect::new(
        r.x + g,
        r.y + g,
        saturating_minus(r.width, 2 * gap),
        saturating_minus(r.height, 2 * gap),
    )
}

/// `r` can be padded by `p` in 32-bit coordinates.
pub open spec fn padding_fits(r: Rect, p: Padding) -> bool {
    &&& is_i32(r.x + wrap_i32(p.left as int))
    &&& is_i32(r.y + wrap_i32(p.top as int))
    &&& p.left + p.right <= u32::MAX
    &&& p.top + p.bottom <= u32::MAX
}

/// Whether `r` can be padded by `p`.
pub fn padding_is_fit(r: Rect, p: Padding) -> (b: bool)
    ensures
        b == padding_fits(r, p),
{
    fits_i32(r.x as i64 + as_i32(p.left) as i64) && fits_i32(r.y as i64 + as_i32(p.top) as i64)
        && p.left <= u32::MAX - p.right && p.top <= u32::MAX - p.bottom
}

/// `r` without the screen-edge strips that `p` reserves.
pub open spec fn padded_rect(r: Rect, p: Padding) -> Rect {
    Rect {
        x: (r.x + wrap_i32(p.left as int)) as i32,
        y: (r.y + wrap_i32(p.top as int)) as i32,
        width: minus(r.width as int, p.left + p.right) as u32,
        height: minus(r.height as int, p.top + p.bottom) as u32,
    }
}

/// Subtract screen-edge padding from a monitor's work area.
pub fn apply_padding(r: Rect, p: Padding) -> (s: Rect)
    requires
        padding_fits(r, p),
    ensures
        s == padded_rect(r, p),
{
    Rect::new(
        r.x + as_i32(p.left),
        r.y + as_i32(p.top),
        saturating_minus(r.width, p.left + p.right),
        saturating_minus(r.height, p.top + p.bottom),
    )
}

/// `r` can be grown by `px` in 32-bit coordinates.
pub open spec fn expand_fits(r: Rect, px: i32) -> bool {
    &&& is_i32(r.x - px)
    &&& is_i32(r.y - px)
    &&& is_i32(px * 2)
    &&& is_i32(wrap_i32(r.width as int) + px * 2)
    &&& is_i32(wrap_i32(r.height as int) + px * 2)
}

/// `r` grown by `px` pixels on each side; a side never becomes negative.
pub open spec fn expanded_rect(r: Rect, px: i32) -> Rect {
    Rect {
        x: (r.x - px) as i32,
        y: (r.y - px) as i32,
        width: minus(wrap_i32(r.width as int), -2 * px) as u32,
        height: minus(wrap_i32(r.height as int), -2 * px) as u32,
    }
}

fn grown(side: u32, px: i32) -> (r: u32)
    requires
        is_i32(px * 2),
        is_i32(wrap_i32(side as int) + px * 2),
    ensures
        r == minus(wrap_i32(side as int), -2 * px),
{
    let s: i32 = as_i32(side) + px * 2;
    if s > 0 {
        s as u32
    } else {
        0
    }
}

/// Expand a rectangle outward by `px` pixels on every side.
pub fn expand_rect(r: Rect, px: i32) -> (s: Rect)
    requires
        expand_fits(r, px),
    ensures
        s == expanded_rect(r, px),
{
    Rect::new(r.x - px, r.y - px, grown(r.width, px), grown(r.height, px))
}

/// Growing a rectangle undoes an inset of the same width, where the inset did
/// not use up a side.
pub proof fn expand_undoes_inset(r: Rect, gap: u32)
    requires
        inset_fits(r, gap),
        2 * gap <= r.width <= i32::MAX,
        2 * gap <= r.height <= i32::MAX,
    ensures
        expand_fits(inset_rect(r, gap), gap as i32),
        expanded_rect(inset_rect(r, gap), gap as i32) == r,
{
}

/// Without gaps and padding a rectangle stays as it is.
pub proof fn no_gap_no_change(r: Rect)
    ensures
        inset_fits(r, 0),
        inset_rect(r, 0) == r,
        padding_fits(r, (Padding { top: 0, bottom: 0, left: 0, right: 0 })),
        padded_rect(r, (Padding { top: 0, bottom: 0, left: 0, right: 0 })) == r,
{
}

// ── Comparison ───────────────────────────────────────────────────────────────

/// The edges that a covering test compares are `i32` coordinates.
pub open spec fn covering_fits(window: Rect, monitor: Rect) -> bool {
    window.x <= monitor.x && window.y <= monitor.y ==> {
        let right = window.x + wrap_i32(window.width as int);
        let monitor_right = monitor.x + wrap_i32(monitor.width as int);
        &&& is_i32(right)
        &&& is_i32(monitor_right)
        &&& right >= monitor_right ==> {
            &&& is_i32(window.y + wrap_i32(window.height as int))
            &&& is_i32(monitor.y + wrap_i32(monitor.height as int))
        }
    }
}

/// `window` reaches to or beyond every edge of `monitor`.
pub open spec fn covers_rect(window: Rect, monitor: Rect) -> bool {
    &&& window.x <= monitor.x
    &&& window.y <= monitor.y
    &&& window.x + wrap_i32(window.width as int) >= monitor.x + wrap_i32(monitor.width as int)
    &&& window.y + wrap_i32(window.height as int) >= monitor.y + wrap_i32(monitor.height as int)
}

/// Whether `window` fully covers `monitor`.  A window that is larger than the
/// monitor, such as one with invisible resize borders, covers it too.
pub fn rect_covers(window: Rect, monitor: Rect) -> (r: bool)
    requires
        covering_fits(window, monitor),
    ensures
        r == covers_rect(window, monitor),
{
    window.x <= monitor.x && window.y <= monitor.y && (window.x + as_i32(window.width)) >= (
    monitor.x + as_i32(monitor.width)) && (window.y + as_i32(window.height)) >= (monitor.y
        + as_i32(monitor.height))
}

/// Every rectangle covers itself, and covering is transitive.
pub proof fn covering_is_a_preorder(a: Rect, b: Rect, c: Rect)
    ensures
        covers_rect(a, a),
        covers_rect(a, b) && covers_rect(b, c) ==> covers_rect(a, c),
{
}

/// Half of `v`, rounded toward zero.
pub open spec fn half(v: int) -> int {
    if v >= 0 {
        v / 2
    } else {
        -((-v) / 2)
    }
}

/// The centre of `r`.
pub open spec fn centre(r: Rect) -> (int, int) {
    (r.x + half(wrap_i32(r.width as int)), r.y + half(wrap_i32(r.height as int)))
}

/// The centre of `r` has `i32` coordinates.
pub open spec fn centre_fits(r: Rect) -> bool {
    is_i32(centre(r).0) && is_i32(centre(r).1)
}

/// Centre of a rectangle.
pub fn center_of(r: Rect) -> (c: (i32, i32))
    requires
        centre_fits(r),
    ensures
        c.0 == centre(r).0,
        c.1 == centre(r).1,
{
    (r.x + as_i32(r.width) / 2, r.y + as_i32(r.height) / 2)
}

/// Square of the distance between two points.
pub open spec fn distance_squared(a: (int, int), b: (int, int)) -> int {
    (a.0 - b.0) * (a.0 - b.0) + (a.1 - b.1) * (a.1 - b.1)
}

/// The distance between two points can be computed without overflow.
pub open spec fn distance_fits(a: (int, int), b: (int, int)) -> bool {
    &&& is_i32(a.0 - b.0)
    &&& is_i32(a.1 - b.1)
    &&& distance_squared(a, b) <= i64::MAX
}

/// Square of the distance between two points.
pub fn dist_sq(a: (i32, i32), b: (i32, i32)) -> (d: i64)
    requires
        distance_fits((a.0 as int, a.1 as int), (b.0 as int, b.1 as int)),
    ensures
        d == distance_squared((a.0 as int, a.1 as int), (b.0 as int, b.1 as int)),
{
    let dx: i64 = (a.0 - b.0) as i64;
    let dy: i64 = (a.1 - b.1) as i64;
    assert(0 <= dx * dx <= 0x4000_0000_0000_0000 && 0 <= dy * dy <= 0x4000_0000_0000_0000)
        by (nonlinear_arith)
        requires
            -0x8000_0000 <= dx <= 0x7fff_ffff,
            -0x8000_0000 <= dy <= 0x7fff_ffff,
    ;
    dx * dx + dy * dy
}

} // verus!
