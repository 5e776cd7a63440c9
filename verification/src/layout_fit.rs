//! Whether a layout can be computed in 32-bit coordinates.

use crate::geometry::{as_i32, fits_i32, wrap_i32};
use crate::layout::{
    bsp_tiles, center_main_tile, column_tile, corners_fit, fibonacci_tiles, is_i32, layout_fits,
    layout_tiles, left_column, right_column, stacked_cell, tile_of, LayoutKind, Tile,
};
use crate::window::Rect;
use vstd::prelude::*;

verus! {

/// A rectangle in wide numbers.
#[derive(Clone, Copy)]
struct Area {
    x: i64,
    y: i64,
    w: i64,
    h: i64,
}

/// The tile that an area covers.
spec fn tile(a: Area) -> Tile {
    Tile { x: a.x as int, y: a.y as int, w: a.w as int, h: a.h as int }
}

/// An area that lies on a screen of 32-bit size at a 32-bit corner.
spec fn moderate(a: Area) -> bool {
    &&& i32::MIN <= a.x && a.x + a.w <= 0x2_0000_0000 && 0 <= a.w <= u32::MAX
    &&& i32::MIN <= a.y && a.y + a.h <= 0x2_0000_0000 && 0 <= a.h <= u32::MAX
}

/// The corner of a tile is representable.
spec fn corner_fits(t: Tile) -> bool {
    is_i32(t.x) && is_i32(t.y)
}

fn corner_is_fit(a: Area) -> (r: bool)
    ensures
        r == corner_fits(tile(a)),
{
    fits_i32(a.x) && fits_i32(a.y)
}

/// Both halves of an area: side by side, or one above the other.
fn halves(a: Area, side_by_side: bool) -> (r: (Area, Area))
    requires
        moderate(a),
    ensures
        moderate(r.0),
        moderate(r.1),
        side_by_side ==> tile(r.0) == tile(a).left_half() && tile(r.1) == tile(a).right_half(),
        !side_by_side ==> tile(r.0) == tile(a).top_half() && tile(r.1) == tile(a).bottom_half(),
{
    if side_by_side {
        let half: i64 = a.w / 2;
        (Area { w: half, ..a }, Area { x: a.x + half, w: a.w - half, ..a })
    } else {
        let half: i64 = a.h / 2;
        (Area { h: half, ..a }, Area { y: a.y + half, h: a.h - half, ..a })
    }
}

proof fn lemma_corners_join(a: Seq<Tile>, b: Seq<Tile>)
    ensures
        corners_fit(a + b) <==> corners_fit(a) && corners_fit(b),
{
    let all = a + b;
    if corners_fit(all) {
        assert forall|i: int| 0 <= i < a.len() implies is_i32((#[trigger] a[i]).x) && is_i32(
            a[i].y,
        ) by {
            assert(all[i] == a[i]);
        }
        assert forall|i: int| 0 <= i < b.len() implies is_i32((#[trigger] b[i]).x) && is_i32(
            b[i].y,
        ) by {
            assert(all[a.len() + i] == b[i]);
        }
    }
    if corners_fit(a) && corners_fit(b) {
        assert forall|i: int| 0 <= i < all.len() implies is_i32((#[trigger] all[i]).x) && is_i32(
            all[i].y,
        ) by {
            if i < a.len() {
                assert(all[i] == a[i]);
            } else {
                assert(all[i] == b[i - a.len()]);
            }
        }
    }
}

proof fn lemma_corners_one(t: Tile)
    ensures
        corners_fit(seq![t]) <==> corner_fits(t),
{
    let one = seq![t];
    assert(one[0] == t);
}

fn fibonacci_is_fit(screen: Area, count: usize) -> (r: bool)
    requires
        moderate(screen),
    ensures
        r == corners_fit(fibonacci_tiles(tile(screen), true, count as nat)),
{
    if count == 0 {
        return true;
    }
    let ghost whole = fibonacci_tiles(tile(screen), true, count as nat);
    let mut area = screen;
    let mut side_by_side = true;
    let mut n: usize = count;
    while n > 1
        invariant
            n >= 1,
            moderate(area),
            whole == fibonacci_tiles(tile(screen), true, count as nat),
            corners_fit(whole) <==> corners_fit(
                fibonacci_tiles(tile(area), side_by_side, n as nat),
            ),
        decreases n,
    {
        let (head, rest) = halves(area, side_by_side);
        proof {
            lemma_corners_one(tile(head));
            lemma_corners_join(
                seq![tile(head)],
                fibonacci_tiles(tile(rest), !side_by_side, (n - 1) as nat),
            );
        }
        if !corner_is_fit(head) {
            return false;
        }
        area = rest;
        side_by_side = !side_by_side;
        n -= 1;
    }
    proof {
        lemma_corners_one(tile(area));
    }
    corner_is_fit(area)
}

fn bsp_is_fit(area: Area, count: usize) -> (r: bool)
    requires
        moderate(area),
    ensures
        r == corners_fit(bsp_tiles(tile(area), count as nat)),
    decreases count,
{
    if count == 0 {
        return true;
    }
    if count == 1 {
        proof {
            lemma_corners_one(tile(area));
        }
        return corner_is_fit(area);
    }
    let (head, rest) = halves(area, area.w >= area.h);
    let left: usize = count / 2;
    proof {
        lemma_corners_join(
            bsp_tiles(tile(head), left as nat),
            bsp_tiles(tile(rest), (count - left) as nat),
        );
    }
    bsp_is_fit(head, left) && bsp_is_fit(rest, count - left)
}

fn columns_are_fit(screen: Area, count: usize, cols: u8) -> (r: bool)
    requires
        moderate(screen),
        is_i32(screen.y as int),
    ensures
        r == layout_fits(LayoutKind::Columns { count: cols }, tile(screen), count as nat),
{
    if cols == 0 {
        return true;
    }
    let ghost kind = LayoutKind::Columns { count: cols };
    let ghost tiles = layout_tiles(kind, tile(screen), count as nat);
    let width: i64 = screen.w / cols as i64;
    let mut i: usize = 0;
    while i < count
        invariant
            i <= count,
            cols > 0,
            moderate(screen),
            is_i32(screen.y as int),
            kind == (LayoutKind::Columns { count: cols }),
            tiles == layout_tiles(kind, tile(screen), count as nat),
            width == screen.w as int / cols as int,
            0 <= width <= u32::MAX,
            forall|j: int|
                0 <= j < i ==> corner_fits(#[trigger] tiles[j]) && tiles[j].x - screen.x
                    <= i32::MAX,
        decreases count - i,
    {
        let column: i64 = (i % cols as usize) as i64;
        assert(0 <= column * width <= 255 * u32::MAX) by (nonlinear_arith)
            requires
                0 <= column <= 255,
                0 <= width <= u32::MAX,
        ;
        let offset: i64 = column * width;
        assert(tiles[i as int] == column_tile(tile(screen), cols as int, i as int));
        if offset > 0x7fff_ffff || !fits_i32(screen.x + offset) {
            return false;
        }
        i += 1;
    }
    true
}

/// Where cell `k` of `n` stacked cells begins, below the top of them all.
fn cell_offset(height: i64, n: i64, k: i64) -> (r: i64)
    requires
        0 <= height <= u32::MAX,
        0 <= k < n,
    ensures
        r == k * (height as int / n as int),
        0 <= r <= height,
{
    let each: i64 = height / n;
    assert(0 <= k * each <= height) by (nonlinear_arith)
        requires
            0 <= k < n,
            0 <= height,
            each == height as int / n as int,
    ;
    k * each
}

fn center_main_is_fit(screen: Area, count: usize) -> (r: bool)
    requires
        moderate(screen),
        corner_fits(tile(screen)),
    ensures
        r == layout_fits(LayoutKind::CenterMain, tile(screen), count as nat),
{
    let ghost area = tile(screen);
    let ghost tiles = layout_tiles(LayoutKind::CenterMain, area, count as nat);
    if count as u64 > 0xffff_ffff {
        return false;
    }
    if count <= 1 {
        return true;
    }
    let side: i64 = screen.w / 4;
    let centre: i64 = screen.w - side * 2;
    let right: i64 = screen.x + side + as_i32(centre as u32) as i64;
    assert(right == right_column(area).x);
    assert(tiles[0] == center_main_tile(area, count as int, 0));
    if !fits_i32(screen.x + side) {
        return false;
    }
    let mut i: usize = 1;
    while i < count
        invariant
            1 <= i <= count,
            2 <= count <= u32::MAX,
            moderate(screen),
            corner_fits(tile(screen)),
            area == tile(screen),
            tiles == layout_tiles(LayoutKind::CenterMain, area, count as nat),
            right == right_column(area).x,
            forall|j: int|
                0 <= j < i ==> corner_fits(#[trigger] tiles[j]) && tiles[j].y - area.y <= i32::MAX,
        decreases count - i,
    {
        let n = count as i64;
        let k = i as i64;
        assert(tiles[i as int] == center_main_tile(area, count as int, i as int));
        let (x, down) = if i % 2 == 1 {
            assert(tiles[i as int] == stacked_cell(left_column(area), n as int / 2, k as int / 2));
            (screen.x, cell_offset(screen.h, n / 2, k / 2))
        } else {
            assert(tiles[i as int] == stacked_cell(
                right_column(area),
                (n - 1) as int / 2,
                k as int / 2 - 1,
            ));
            (right, cell_offset(screen.h, (n - 1) / 2, k / 2 - 1))
        };
        assert(tiles[i as int].x == x && tiles[i as int].y == screen.y + down);
        if !fits_i32(x) || down > 0x7fff_ffff || !fits_i32(screen.y + down) {
            return false;
        }
        i += 1;
    }
    true
}

/// Whether the layout of `count` windows on `screen` can be computed.
pub fn layout_is_fit(kind: &LayoutKind, screen: Rect, count: usize) -> (r: bool)
    ensures
        r == layout_fits(*kind, tile_of(screen), count as nat),
{
    let area = Area {
        x: screen.x as i64,
        y: screen.y as i64,
        w: screen.width as i64,
        h: screen.height as i64,
    };
    assert(tile(area) == tile_of(screen));
    match kind {
        LayoutKind::Fibonacci => fibonacci_is_fit(area, count),
        LayoutKind::Bsp => bsp_is_fit(area, count),
        LayoutKind::Columns { count: cols } => columns_are_fit(area, count, *cols),
        LayoutKind::CenterMain => center_main_is_fit(area, count),
        LayoutKind::Monocle | LayoutKind::Float => true,
    }
}

} // verus!
