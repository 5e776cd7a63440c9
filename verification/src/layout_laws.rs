//! What holds of every layout: one tile per window, no tile outside the screen,
//! and, for the layouts that divide the screen, every pixel on exactly one tile.

use crate::layout::{
    bsp_tiles, center_main_tile, centre_column, column_tile, fibonacci_tiles, layout_fits,
    layout_tiles, left_column, right_column, stacked_cell, tile_of, LayoutKind, Tile,
};
use crate::window::Rect;
use vstd::prelude::*;

verus! {

/// Every pixel of every tile is a pixel of `area`.
pub open spec fn inside(area: Tile, tiles: Seq<Tile>) -> bool {
    forall|i: int, px: int, py: int|
        0 <= i < tiles.len() && #[trigger] tiles[i].covers(px, py) ==> area.covers(px, py)
}

/// Some tile covers the pixel.
pub open spec fn covered(tiles: Seq<Tile>, px: int, py: int) -> bool {
    exists|i: int| 0 <= i < tiles.len() && #[trigger] tiles[i].covers(px, py)
}

/// No pixel lies on two tiles.
pub open spec fn disjoint(tiles: Seq<Tile>) -> bool {
    forall|i: int, j: int, px: int, py: int|
        0 <= i < tiles.len() && 0 <= j < tiles.len() && #[trigger] tiles[i].covers(px, py)
            && #[trigger] tiles[j].covers(px, py) ==> i == j
}

/// The tiles divide `area`: each of its pixels is on exactly one tile, and no
/// tile reaches beyond it.
pub open spec fn divides(area: Tile, tiles: Seq<Tile>) -> bool {
    &&& inside(area, tiles)
    &&& disjoint(tiles)
    &&& forall|px: int, py: int| #[trigger] area.covers(px, py) ==> covered(tiles, px, py)
}

proof fn lemma_join(area: Tile, a: Tile, b: Tile, s: Seq<Tile>, t: Seq<Tile>)
    requires
        divides(a, s),
        divides(b, t),
        forall|px: int, py: int| #[trigger]
            area.covers(px, py) <==> a.covers(px, py) || b.covers(px, py),
        forall|px: int, py: int| !(#[trigger] a.covers(px, py) && #[trigger] b.covers(px, py)),
    ensures
        divides(area, s + t),
{
    let all = s + t;
    assert forall|i: int, px: int, py: int|
        0 <= i < all.len() && #[trigger] all[i].covers(px, py) implies area.covers(px, py) by {
        if i < s.len() {
            assert(s[i].covers(px, py));
        } else {
            assert(t[i - s.len()].covers(px, py));
        }
        assert(a.covers(px, py) || b.covers(px, py));
    }
    assert forall|i: int, j: int, px: int, py: int|
        0 <= i < all.len() && 0 <= j < all.len() && #[trigger] all[i].covers(px, py)
            && #[trigger] all[j].covers(px, py) implies i == j by {
        if i < s.len() {
            assert(s[i].covers(px, py));
        } else {
            assert(t[i - s.len()].covers(px, py));
        }
        if j < s.len() {
            assert(s[j].covers(px, py));
        } else {
            assert(t[j - s.len()].covers(px, py));
        }
        assert(!(a.covers(px, py) && b.covers(px, py)));
    }
    assert forall|px: int, py: int| #[trigger] area.covers(px, py) implies covered(
        all,
        px,
        py,
    ) by {
        if a.covers(px, py) {
            let i = choose|i: int| 0 <= i < s.len() && #[trigger] s[i].covers(px, py);
            assert(all[i].covers(px, py));
        } else {
            assert(b.covers(px, py));
            let i = choose|i: int| 0 <= i < t.len() && #[trigger] t[i].covers(px, py);
            assert(all[s.len() + i].covers(px, py));
        }
    }
}

proof fn lemma_whole(area: Tile)
    ensures
        divides(area, seq![area]),
{
    assert forall|px: int, py: int| #[trigger] area.covers(px, py) implies covered(
        seq![area],
        px,
        py,
    ) by {
        assert(seq![area][0].covers(px, py));
    }
}

/// The spiral divides its area among the windows.
pub proof fn fibonacci_divides(area: Tile, horizontal: bool, n: nat)
    requires
        n >= 1,
        area.w >= 0,
        area.h >= 0,
    ensures
        fibonacci_tiles(area, horizontal, n).len() == n,
        divides(area, fibonacci_tiles(area, horizontal, n)),
    decreases n,
{
    if n == 1 {
        lemma_whole(area);
    } else if horizontal {
        lemma_whole(area.left_half());
        fibonacci_divides(area.right_half(), false, (n - 1) as nat);
        lemma_join(
            area,
            area.left_half(),
            area.right_half(),
            seq![area.left_half()],
            fibonacci_tiles(area.right_half(), false, (n - 1) as nat),
        );
    } else {
        lemma_whole(area.top_half());
        fibonacci_divides(area.bottom_half(), true, (n - 1) as nat);
        lemma_join(
            area,
            area.top_half(),
            area.bottom_half(),
            seq![area.top_half()],
            fibonacci_tiles(area.bottom_half(), true, (n - 1) as nat),
        );
    }
}

/// The binary partition divides its area among the windows.
pub proof fn bsp_divides(area: Tile, n: nat)
    requires
        n >= 1,
        area.w >= 0,
        area.h >= 0,
    ensures
        bsp_tiles(area, n).len() == n,
        divides(area, bsp_tiles(area, n)),
    decreases n,
{
    if n == 1 {
        lemma_whole(area);
    } else {
        let k = n / 2;
        let m = (n - n / 2) as nat;
        if area.w >= area.h {
            bsp_divides(area.left_half(), k);
            bsp_divides(area.right_half(), m);
            lemma_join(
                area,
                area.left_half(),
                area.right_half(),
                bsp_tiles(area.left_half(), k),
                bsp_tiles(area.right_half(), m),
            );
        } else {
            bsp_divides(area.top_half(), k);
            bsp_divides(area.bottom_half(), m);
            lemma_join(
                area,
                area.top_half(),
                area.bottom_half(),
                bsp_tiles(area.top_half(), k),
                bsp_tiles(area.bottom_half(), m),
            );
        }
    }
}

/// A stacked cell lies within its column.
proof fn lemma_cell_bounds(area: Tile, n: int, k: int)
    requires
        0 <= k < n,
        area.h >= 0,
    ensures
        0 <= area.h / n,
        0 <= k * (area.h / n),
        (k + 1) * (area.h / n) <= area.h,
        (k + 1) * (area.h / n) == k * (area.h / n) + area.h / n,
{
    let c = area.h / n;
    assert(0 <= c && c * n <= area.h) by (nonlinear_arith)
        requires
            c == area.h / n,
            n > 0,
            area.h >= 0,
    ;
    assert(0 <= k * c && (k + 1) * c <= c * n && (k + 1) * c == k * c + c) by (nonlinear_arith)
        requires
            0 <= k < n,
            0 <= c,
    ;
}

/// Stacked cells are ordered top to bottom without overlap.
proof fn lemma_cells_ordered(area: Tile, n: int, i: int, j: int)
    requires
        0 <= i < j < n,
        area.h >= 0,
    ensures
        stacked_cell(area, n, i).y + stacked_cell(area, n, i).h <= stacked_cell(area, n, j).y,
{
    lemma_cell_bounds(area, n, i);
    let c = area.h / n;
    assert((i + 1) * c <= j * c) by (nonlinear_arith)
        requires
            i < j,
            0 <= c,
    ;
}

/// Every pixel of a column is on one of its stacked cells.
proof fn lemma_cell_of(area: Tile, n: int, px: int, py: int) -> (k: int)
    requires
        n >= 1,
        area.covers(px, py),
    ensures
        0 <= k < n,
        stacked_cell(area, n, k).covers(px, py),
{
    let c = area.h / n;
    let off = py - area.y;
    lemma_cell_bounds(area, n, n - 1);
    if c == 0 {
        assert((n - 1) * c == 0) by (nonlinear_arith)
            requires
                c == 0,
        ;
        n - 1
    } else {
        let q = off / c;
        assert(0 <= q && q * c <= off && off < q * c + c) by (nonlinear_arith)
            requires
                q == off / c,
                c > 0,
                off >= 0,
        ;
        if q >= n - 1 {
            assert((n - 1) * c <= q * c) by (nonlinear_arith)
                requires
                    q >= n - 1,
                    c > 0,
            ;
            n - 1
        } else {
            q
        }
    }
}

proof fn lemma_cell_inside(area: Tile, n: int, k: int, px: int, py: int)
    requires
        0 <= k < n,
        area.h >= 0,
        stacked_cell(area, n, k).covers(px, py),
    ensures
        area.covers(px, py),
{
    lemma_cell_bounds(area, n, k);
}

/// The three-column layout divides its area among the windows.
pub proof fn center_main_divides(area: Tile, n: nat)
    requires
        n >= 1,
        area.w >= 0,
        area.h >= 0,
        area.w - area.w / 4 * 2 <= i32::MAX,
    ensures
        layout_tiles(LayoutKind::CenterMain, area, n).len() == n,
        divides(area, layout_tiles(LayoutKind::CenterMain, area, n)),
{
    let tiles = layout_tiles(LayoutKind::CenterMain, area, n);
    if n == 1 {
        lemma_whole(area);
        assert(tiles =~= seq![area]);
        return ;
    }
    let left = left_column(area);
    let centre = centre_column(area, n as int);
    let right = right_column(area);
    let nl = n as int / 2;
    let nr = (n as int - 1) / 2;
    assert forall|i: int| 0 <= i < n implies #[trigger] tiles[i] == center_main_tile(
        area,
        n as int,
        i,
    ) by {}
    assert forall|i: int, px: int, py: int|
        0 <= i < tiles.len() && #[trigger] tiles[i].covers(px, py) implies area.covers(px, py)
        && (i == 0 ==> centre.covers(px, py)) && (i % 2 == 1 ==> left.covers(px, py)) && (i != 0
        && i % 2 == 0 ==> n >= 3 && right.covers(px, py)) by {
        assert(tiles[i] == center_main_tile(area, n as int, i));
        if i == 0 {
        } else if i % 2 == 1 {
            lemma_cell_inside(left, nl, i / 2, px, py);
        } else {
            lemma_cell_inside(right, nr, i / 2 - 1, px, py);
        }
    }
    assert forall|i: int, j: int, px: int, py: int|
        0 <= i < tiles.len() && 0 <= j < tiles.len() && #[trigger] tiles[i].covers(px, py)
            && #[trigger] tiles[j].covers(px, py) implies i == j by {
        assert(tiles[i] == center_main_tile(area, n as int, i));
        assert(tiles[j] == center_main_tile(area, n as int, j));
        if i % 2 == 1 && j % 2 == 1 {
            if i < j {
                lemma_cells_ordered(left, nl, i / 2, j / 2);
            } else if j < i {
                lemma_cells_ordered(left, nl, j / 2, i / 2);
            }
        } else if i % 2 == 0 && j % 2 == 0 && i != 0 && j != 0 {
            if i < j {
                lemma_cells_ordered(right, nr, i / 2 - 1, j / 2 - 1);
            } else if j < i {
                lemma_cells_ordered(right, nr, j / 2 - 1, i / 2 - 1);
            }
        }
    }
    assert forall|px: int, py: int| #[trigger] area.covers(px, py) implies covered(
        tiles,
        px,
        py,
    ) by {
        if left.covers(px, py) {
            let k = lemma_cell_of(left, nl, px, py);
            let i = 2 * k + 1;
            assert(tiles[i] == center_main_tile(area, n as int, i));
            assert(i / 2 == k && i % 2 == 1);
            assert(tiles[i].covers(px, py));
        } else if centre.covers(px, py) {
            assert(tiles[0].covers(px, py));
        } else {
            assert(n >= 3 && right.covers(px, py));
            let k = lemma_cell_of(right, nr, px, py);
            let i = 2 * k + 2;
            assert(tiles[i] == center_main_tile(area, n as int, i));
            assert(i / 2 - 1 == k && i % 2 == 0);
            assert(tiles[i].covers(px, py));
        }
    }
}

/// One tile per window: every layout but `Float`, and `Columns` without a
/// column, gives each window a tile; those two give none.
pub proof fn one_tile_per_window(kind: LayoutKind, area: Tile, n: nat)
    ensures
        layout_tiles(kind, area, n).len() == (if kind is Float || kind == (LayoutKind::Columns {
            count: 0,
        }) {
            0
        } else {
            n
        }),
{
    match kind {
        LayoutKind::Fibonacci => {
            lemma_fibonacci_len(area, true, n);
        },
        LayoutKind::Bsp => {
            lemma_bsp_len(area, n);
        },
        _ => {},
    }
}

proof fn lemma_fibonacci_len(area: Tile, horizontal: bool, n: nat)
    ensures
        fibonacci_tiles(area, horizontal, n).len() == n,
    decreases n,
{
    if n > 1 {
        lemma_fibonacci_len(area.right_half(), false, (n - 1) as nat);
        lemma_fibonacci_len(area.bottom_half(), true, (n - 1) as nat);
    }
}

proof fn lemma_bsp_len(area: Tile, n: nat)
    ensures
        bsp_tiles(area, n).len() == n,
    decreases n,
{
    if n > 1 {
        lemma_bsp_len(area.left_half(), n / 2);
        lemma_bsp_len(area.right_half(), (n - n / 2) as nat);
        lemma_bsp_len(area.top_half(), n / 2);
        lemma_bsp_len(area.bottom_half(), (n - n / 2) as nat);
    }
}

/// The layouts that divide the screen do: each pixel of the screen is on
/// exactly one window.
pub proof fn dividing_layouts_divide(kind: LayoutKind, screen: Rect, n: nat)
    requires
        n >= 1,
        kind is Fibonacci || kind is Bsp || kind is CenterMain,
        kind is CenterMain ==> screen.width - screen.width / 4 * 2 <= i32::MAX,
    ensures
        divides(tile_of(screen), layout_tiles(kind, tile_of(screen), n)),
{
    match kind {
        LayoutKind::Fibonacci => fibonacci_divides(tile_of(screen), true, n),
        LayoutKind::Bsp => bsp_divides(tile_of(screen), n),
        _ => center_main_divides(tile_of(screen), n),
    }
}

/// A column lies within its area.
proof fn lemma_column_bounds(area: Tile, cols: int, i: int)
    requires
        cols >= 1,
        i >= 0,
        area.w >= 0,
    ensures
        0 <= i % cols < cols,
        0 <= area.w / cols,
        0 <= (i % cols) * (area.w / cols),
        (i % cols) * (area.w / cols) + area.w / cols <= area.w,
{
    let c = area.w / cols;
    let k = i % cols;
    assert(0 <= c && c * cols <= area.w && 0 <= k < cols) by (nonlinear_arith)
        requires
            c == area.w / cols,
            k == i % cols,
            cols >= 1,
            i >= 0,
            area.w >= 0,
    ;
    assert(0 <= k * c && k * c + c <= c * cols) by (nonlinear_arith)
        requires
            0 <= k < cols,
            0 <= c,
    ;
}

/// No layout places a window outside the screen.
pub proof fn tiles_stay_on_screen(kind: LayoutKind, screen: Rect, n: nat)
    requires
        kind is CenterMain ==> screen.width - screen.width / 4 * 2 <= i32::MAX,
    ensures
        inside(tile_of(screen), layout_tiles(kind, tile_of(screen), n)),
{
    let area = tile_of(screen);
    let tiles = layout_tiles(kind, area, n);
    match kind {
        LayoutKind::Columns { count } => {
            assert forall|i: int, px: int, py: int|
                0 <= i < tiles.len() && #[trigger] tiles[i].covers(px, py) implies area.covers(
                px,
                py,
            ) by {
                assert(tiles[i] == column_tile(area, count as int, i));
                lemma_column_bounds(area, count as int, i);
            }
        },
        LayoutKind::Monocle => {},
        LayoutKind::Float => {},
        _ => {
            if n >= 1 {
                dividing_layouts_divide(kind, screen, n);
            }
        },
    }
}

/// In the column layout all windows have the same size, windows in the same
/// column coincide and windows in different columns do not overlap.
pub proof fn columns_are_equal_and_apart(cols: u8, screen: Rect, n: nat, i: int, j: int)
    requires
        cols >= 1,
        0 <= i < n,
        0 <= j < n,
    ensures
        ({
            let tiles = layout_tiles(LayoutKind::Columns { count: cols }, tile_of(screen), n);
            &&& tiles[i].w == screen.width / cols as u32
            &&& tiles[i].h == screen.height
            &&& i % (cols as int) == j % (cols as int) ==> tiles[i] == tiles[j]
            &&& i % (cols as int) != j % (cols as int) ==> forall|px: int, py: int|
                !(#[trigger] tiles[i].covers(px, py) && #[trigger] tiles[j].covers(px, py))
        }),
{
    let area = tile_of(screen);
    let tiles = layout_tiles(LayoutKind::Columns { count: cols }, area, n);
    assert(tiles[i] == column_tile(area, cols as int, i));
    assert(tiles[j] == column_tile(area, cols as int, j));
    lemma_column_bounds(area, cols as int, i);
    lemma_column_bounds(area, cols as int, j);
    let a = i % (cols as int);
    let b = j % (cols as int);
    let c = area.w / (cols as int);
    if a < b {
        assert(a * c + c <= b * c) by (nonlinear_arith)
            requires
                a < b,
                0 <= c,
        ;
    } else if b < a {
        assert(b * c + c <= a * c) by (nonlinear_arith)
            requires
                b < a,
                0 <= c,
        ;
    }
}

/// In the monocle layout every window fills the screen.
pub proof fn monocle_fills_screen(screen: Rect, n: nat, i: int)
    requires
        0 <= i < n,
    ensures
        layout_tiles(LayoutKind::Monocle, tile_of(screen), n)[i] == tile_of(screen),
{
}

/// Every tile's corner lies on `area` or on its right or bottom edge.
pub open spec fn corners_within(area: Tile, tiles: Seq<Tile>) -> bool {
    forall|i: int|
        0 <= i < tiles.len() ==> area.x <= (#[trigger] tiles[i]).x <= area.x + area.w && area.y
            <= tiles[i].y <= area.y + area.h
}

proof fn lemma_fibonacci_corners(area: Tile, horizontal: bool, n: nat)
    requires
        area.w >= 0,
        area.h >= 0,
    ensures
        corners_within(area, fibonacci_tiles(area, horizontal, n)),
    decreases n,
{
    if n > 1 {
        if horizontal {
            lemma_fibonacci_corners(area.right_half(), false, (n - 1) as nat);
        } else {
            lemma_fibonacci_corners(area.bottom_half(), true, (n - 1) as nat);
        }
    }
}

proof fn lemma_bsp_corners(area: Tile, n: nat)
    requires
        area.w >= 0,
        area.h >= 0,
    ensures
        corners_within(area, bsp_tiles(area, n)),
    decreases n,
{
    if n > 1 {
        if area.w >= area.h {
            lemma_bsp_corners(area.left_half(), n / 2);
            lemma_bsp_corners(area.right_half(), (n - n / 2) as nat);
        } else {
            lemma_bsp_corners(area.top_half(), n / 2);
            lemma_bsp_corners(area.bottom_half(), (n - n / 2) as nat);
        }
    }
}

/// No layout puts a window's corner off the screen.
pub proof fn corners_stay_on_screen(kind: LayoutKind, screen: Rect, n: nat)
    requires
        screen.width <= i32::MAX,
    ensures
        corners_within(tile_of(screen), layout_tiles(kind, tile_of(screen), n)),
{
    let area = tile_of(screen);
    let tiles = layout_tiles(kind, area, n);
    match kind {
        LayoutKind::Fibonacci => lemma_fibonacci_corners(area, true, n),
        LayoutKind::Bsp => lemma_bsp_corners(area, n),
        LayoutKind::Columns { count } => {
            assert forall|i: int| 0 <= i < tiles.len() implies area.x <= (#[trigger] tiles[i]).x
                <= area.x + area.w && area.y <= tiles[i].y <= area.y + area.h by {
                assert(tiles[i] == column_tile(area, count as int, i));
                lemma_column_bounds(area, count as int, i);
            }
        },
        LayoutKind::CenterMain => {
            if n >= 2 {
                assert forall|i: int| 0 <= i < tiles.len() implies area.x <= (#[trigger] tiles[i]).x
                    <= area.x + area.w && area.y <= tiles[i].y <= area.y + area.h by {
                    assert(tiles[i] == center_main_tile(area, n as int, i));
                    if i == 0 {
                    } else if i % 2 == 1 {
                        lemma_cell_bounds(left_column(area), n as int / 2, i / 2);
                    } else {
                        lemma_cell_bounds(right_column(area), (n as int - 1) / 2, i / 2 - 1);
                    }
                }
            }
        },
        _ => {},
    }
}

/// On a screen no larger than `i32::MAX` whose right and bottom edges are
/// `i32` coordinates, every layout can be computed.
pub proof fn layouts_fit_ordinary_screens(kind: LayoutKind, screen: Rect, n: nat)
    requires
        n <= u32::MAX,
        screen.width <= i32::MAX,
        screen.height <= i32::MAX,
        screen.x + screen.width <= i32::MAX,
        screen.y + screen.height <= i32::MAX,
    ensures
        layout_fits(kind, tile_of(screen), n),
{
    corners_stay_on_screen(kind, screen, n);
}

/// No tile is wider or higher than `area`.
pub open spec fn sizes_within(area: Tile, tiles: Seq<Tile>) -> bool {
    forall|i: int|
        0 <= i < tiles.len() ==> 0 <= (#[trigger] tiles[i]).w <= area.w && 0 <= tiles[i].h <= area.h
}

proof fn lemma_fibonacci_sizes(area: Tile, horizontal: bool, n: nat)
    requires
        area.w >= 0,
        area.h >= 0,
    ensures
        sizes_within(area, fibonacci_tiles(area, horizontal, n)),
    decreases n,
{
    if n > 1 {
        if horizontal {
            lemma_fibonacci_sizes(area.right_half(), false, (n - 1) as nat);
        } else {
            lemma_fibonacci_sizes(area.bottom_half(), true, (n - 1) as nat);
        }
    }
}

proof fn lemma_bsp_sizes(area: Tile, n: nat)
    requires
        area.w >= 0,
        area.h >= 0,
    ensures
        sizes_within(area, bsp_tiles(area, n)),
    decreases n,
{
    if n > 1 {
        if area.w >= area.h {
            lemma_bsp_sizes(area.left_half(), n / 2);
            lemma_bsp_sizes(area.right_half(), (n - n / 2) as nat);
        } else {
            lemma_bsp_sizes(area.top_half(), n / 2);
            lemma_bsp_sizes(area.bottom_half(), (n - n / 2) as nat);
        }
    }
}

/// No layout makes a window larger than the screen.
pub proof fn tiles_are_no_larger_than_screen(kind: LayoutKind, screen: Rect, n: nat)
    ensures
        sizes_within(tile_of(screen), layout_tiles(kind, tile_of(screen), n)),
{
    let area = tile_of(screen);
    let tiles = layout_tiles(kind, area, n);
    match kind {
        LayoutKind::Fibonacci => lemma_fibonacci_sizes(area, true, n),
        LayoutKind::Bsp => lemma_bsp_sizes(area, n),
        LayoutKind::Columns { count } => {
            assert forall|i: int| 0 <= i < tiles.len() implies 0 <= (#[trigger] tiles[i]).w
                <= area.w && 0 <= tiles[i].h <= area.h by {
                assert(tiles[i] == column_tile(area, count as int, i));
                lemma_column_bounds(area, count as int, i);
            }
        },
        LayoutKind::CenterMain => {
            if n >= 2 {
                assert forall|i: int| 0 <= i < tiles.len() implies 0 <= (#[trigger] tiles[i]).w
                    <= area.w && 0 <= tiles[i].h <= area.h by {
                    assert(tiles[i] == center_main_tile(area, n as int, i));
                    if i == 0 {
                    } else if i % 2 == 1 {
                        lemma_cell_bounds(left_column(area), n as int / 2, i / 2);
                    } else {
                        lemma_cell_bounds(right_column(area), (n as int - 1) / 2, i / 2 - 1);
                    }
                }
            }
        },
        _ => {},
    }
}

proof fn lemma_fibonacci_grows(area: Tile, horizontal: bool, n: nat)
    requires
        n >= 1,
    ensures
        ({
            let a = fibonacci_tiles(area, horizontal, n);
            let b = fibonacci_tiles(area, horizontal, n + 1);
            let last = a[n - 1];
            &&& a.len() == n
            &&& b.len() == n + 1
            &&& forall|i: int| 0 <= i < n - 1 ==> #[trigger] b[i] == a[i]
            &&& if horizontal == (n % 2 == 1) {
                b[n - 1] == last.left_half() && b[n as int] == last.right_half()
            } else {
                b[n - 1] == last.top_half() && b[n as int] == last.bottom_half()
            }
        }),
    decreases n,
{
    let a = fibonacci_tiles(area, horizontal, n);
    let b = fibonacci_tiles(area, horizontal, n + 1);
    let (head, rest) = if horizontal {
        (area.left_half(), area.right_half())
    } else {
        (area.top_half(), area.bottom_half())
    };
    if n == 1 {
        assert(fibonacci_tiles(rest, !horizontal, 1) =~= seq![rest]);
        assert(b =~= seq![head, rest]);
    } else {
        lemma_fibonacci_grows(rest, !horizontal, (n - 1) as nat);
        let c = fibonacci_tiles(rest, !horizontal, (n - 1) as nat);
        let d = fibonacci_tiles(rest, !horizontal, n);
        assert(a =~= seq![head] + c);
        assert(b =~= seq![head] + d);
        assert forall|i: int| 0 <= i < n - 1 implies #[trigger] b[i] == a[i] by {
            if i > 0 {
                assert(b[i] == d[i - 1] && a[i] == c[i - 1]);
            }
        }
        assert(a[n - 1] == c[n - 2]);
        assert(b[n - 1] == d[n - 2] && b[n as int] == d[n - 1]);
    }
}

/// One more window on a spiral leaves all tiles but the last as they were and
/// splits the last in two, with nothing lost: side by side after an odd number
/// of windows, one above the other after an even number.
pub proof fn fibonacci_splits_the_last_tile(area: Tile, n: nat)
    requires
        n >= 1,
    ensures
        ({
            let a = layout_tiles(LayoutKind::Fibonacci, area, n);
            let b = layout_tiles(LayoutKind::Fibonacci, area, n + 1);
            let last = a[n - 1];
            &&& a.len() == n
            &&& b.len() == n + 1
            &&& forall|i: int| 0 <= i < n - 1 ==> #[trigger] b[i] == a[i]
            &&& n % 2 == 1 ==> b[n - 1] == last.left_half() && b[n as int] == last.right_half()
            &&& n % 2 == 0 ==> b[n - 1] == last.top_half() && b[n as int] == last.bottom_half()
            &&& forall|x: int, y: int| #[trigger]
                last.covers(x, y) ==> b[n - 1].covers(x, y) != b[n as int].covers(x, y)
            &&& forall|x: int, y: int| #[trigger]
                b[n - 1].covers(x, y) ==> last.covers(x, y)
            &&& forall|x: int, y: int| #[trigger]
                b[n as int].covers(x, y) ==> last.covers(x, y)
        }),
{
    lemma_fibonacci_grows(area, true, n);
}

} // verus!
