//! The shape of each layout, in edges and sizes.

use crate::layout::{
    bsp_tiles, center_main_tile, column_tile, layout_tiles, LayoutKind, Tile,
};
use crate::layout_laws::{bsp_divides, divides, one_tile_per_window};
use vstd::prelude::*;

verus! {

/// The halves of an area lie beside each other, or one above the other, and
/// have the same size up to one pixel, which the second has more.
pub proof fn halves_are_even(area: Tile)
    requires
        area.w >= 0,
        area.h >= 0,
    ensures
        ({
            let (a, b) = (area.left_half(), area.right_half());
            &&& a.x == area.x && b.x == a.x + a.w && b.x + b.w == area.x + area.w
            &&& 0 <= b.w - a.w <= 1
            &&& a.y == area.y && b.y == area.y && a.h == area.h && b.h == area.h
        }),
        ({
            let (a, b) = (area.top_half(), area.bottom_half());
            &&& a.y == area.y && b.y == a.y + a.h && b.y + b.h == area.y + area.h
            &&& 0 <= b.h - a.h <= 1
            &&& a.x == area.x && b.x == area.x && a.w == area.w && b.w == area.w
        }),
{
}

/// A single window gets the whole area, unless the layout has other columns or
/// no tiles at all.
pub proof fn one_window_gets_everything(kind: LayoutKind, area: Tile)
    requires
        kind is Fibonacci || kind is Bsp || kind is CenterMain || kind is Monocle || kind == (
        LayoutKind::Columns { count: 1 }),
    ensures
        layout_tiles(kind, area, 1) == seq![area],
{
    assert(layout_tiles(kind, area, 1) =~= seq![area]) by {
        if let LayoutKind::Columns { count } = kind {
            assert(0int % 1 == 0 && area.w / 1 == area.w);
            assert(0 * (area.w / 1) == 0) by (nonlinear_arith);
            assert(layout_tiles(kind, area, 1)[0] == column_tile(area, 1, 0));
        }
    }
}

// ── Binary space partition ───────────────────────────────────────────────────

/// The longer side of the area is halved; the first half of the windows, rounded
/// down, divides the first half of the area, and the others divide the rest.
pub proof fn bsp_shares_out_the_halves(area: Tile, n: nat)
    requires
        n >= 2,
        area.w >= 0,
        area.h >= 0,
    ensures
        ({
            let tiles = layout_tiles(LayoutKind::Bsp, area, n);
            let first = tiles.take(n as int / 2);
            let rest = tiles.skip(n as int / 2);
            &&& tiles.len() == n
            &&& area.w >= area.h ==> {
                &&& divides((Tile { x: area.x, y: area.y, w: area.w / 2, h: area.h }), first)
                &&& divides(
                    (Tile {
                        x: area.x + area.w / 2,
                        y: area.y,
                        w: area.w - area.w / 2,
                        h: area.h,
                    }),
                    rest,
                )
            }
            &&& area.w < area.h ==> {
                &&& divides((Tile { x: area.x, y: area.y, w: area.w, h: area.h / 2 }), first)
                &&& divides(
                    (Tile {
                        x: area.x,
                        y: area.y + area.h / 2,
                        w: area.w,
                        h: area.h - area.h / 2,
                    }),
                    rest,
                )
            }
        }),
{
    let tiles = layout_tiles(LayoutKind::Bsp, area, n);
    one_tile_per_window(LayoutKind::Bsp, area, n);
    let k = n / 2;
    let m = (n - n / 2) as nat;
    let (a, b) = if area.w >= area.h {
        (area.left_half(), area.right_half())
    } else {
        (area.top_half(), area.bottom_half())
    };
    bsp_divides(a, k);
    bsp_divides(b, m);
    assert(tiles.take(n as int / 2) =~= bsp_tiles(a, k));
    assert(tiles.skip(n as int / 2) =~= bsp_tiles(b, m));
}

/// A number that halving leads to one.
pub open spec fn is_power_of_two(n: nat) -> bool
    decreases n,
{
    n == 1 || (n > 1 && n % 2 == 0 && is_power_of_two(n / 2))
}

/// The sizes of a partition do not depend on where it lies.
proof fn lemma_bsp_sizes_alike(a: Tile, b: Tile, n: nat)
    requires
        a.w == b.w,
        a.h == b.h,
    ensures
        bsp_tiles(a, n).len() == n,
        bsp_tiles(b, n).len() == n,
        forall|i: int|
            0 <= i < n ==> (#[trigger] bsp_tiles(a, n)[i]).w == bsp_tiles(b, n)[i].w && bsp_tiles(
                a,
                n,
            )[i].h == bsp_tiles(b, n)[i].h,
    decreases n,
{
    if n >= 2 {
        let k = n / 2;
        let m = (n - n / 2) as nat;
        let (a1, a2, b1, b2) = if a.w >= a.h {
            (a.left_half(), a.right_half(), b.left_half(), b.right_half())
        } else {
            (a.top_half(), a.bottom_half(), b.top_half(), b.bottom_half())
        };
        lemma_bsp_sizes_alike(a1, b1, k);
        lemma_bsp_sizes_alike(a2, b2, m);
        assert forall|i: int| 0 <= i < n implies (#[trigger] bsp_tiles(a, n)[i]).w == bsp_tiles(
            b,
            n,
        )[i].w && bsp_tiles(a, n)[i].h == bsp_tiles(b, n)[i].h by {
            if i < k {
                assert(bsp_tiles(a, n)[i] == bsp_tiles(a1, k)[i]);
                assert(bsp_tiles(b, n)[i] == bsp_tiles(b1, k)[i]);
            } else {
                assert(bsp_tiles(a, n)[i] == bsp_tiles(a2, m)[i - k]);
                assert(bsp_tiles(b, n)[i] == bsp_tiles(b2, m)[i - k]);
            }
        }
    }
}

/// Where the sides can be halved as often as the number of windows, a power of
/// two, all windows have the same size and together the size of the area.
pub proof fn bsp_powers_of_two_are_equal(area: Tile, n: nat)
    requires
        is_power_of_two(n),
        area.w >= 0,
        area.h >= 0,
        area.w % (n as int) == 0,
        area.h % (n as int) == 0,
    ensures
        ({
            let tiles = layout_tiles(LayoutKind::Bsp, area, n);
            &&& tiles.len() == n
            &&& forall|i: int, j: int|
                0 <= i < n && 0 <= j < n ==> (#[trigger] tiles[i]).w == (#[trigger] tiles[j]).w
                    && tiles[i].h == tiles[j].h
            &&& n * (tiles[0].w * tiles[0].h) == area.w * area.h
        }),
    decreases n,
{
    let tiles = layout_tiles(LayoutKind::Bsp, area, n);
    one_tile_per_window(LayoutKind::Bsp, area, n);
    if n == 1 {
        assert(1 * (tiles[0].w * tiles[0].h) == area.w * area.h);
    } else {
        let k = n / 2;
        assert(k == n - n / 2);
        let (a, b) = if area.w >= area.h {
            (area.left_half(), area.right_half())
        } else {
            (area.top_half(), area.bottom_half())
        };
        lemma_halvable(area.w, n as int);
        lemma_halvable(area.h, n as int);
        assert(a.w == b.w && a.h == b.h);
        bsp_powers_of_two_are_equal(a, k);
        lemma_bsp_sizes_alike(a, b, k);
        let first = bsp_tiles(a, k);
        let rest = bsp_tiles(b, k);
        assert forall|i: int| 0 <= i < n implies (#[trigger] tiles[i]).w == first[0].w
            && tiles[i].h == first[0].h by {
            if i < k {
                assert(tiles[i] == first[i]);
                assert(first[i].w == first[0].w && first[i].h == first[0].h);
            } else {
                assert(tiles[i] == rest[i - k]);
                assert(first[i - k].w == rest[i - k].w && first[i - k].h == rest[i - k].h);
                assert(first[i - k].w == first[0].w && first[i - k].h == first[0].h);
            }
        }
        assert(tiles[0] == first[0]);
        let t = tiles[0].w * tiles[0].h;
        assert(n * t == 2 * (k * t)) by (nonlinear_arith)
            requires
                n == 2 * k,
        ;
        assert(2 * (a.w * a.h) == area.w * area.h) by (nonlinear_arith)
            requires
                (2 * a.w == area.w && a.h == area.h) || (a.w == area.w && 2 * a.h == area.h),
        ;
    }
}

proof fn lemma_halvable(w: int, n: int)
    requires
        w >= 0,
        n >= 2,
        n % 2 == 0,
        w % n == 0,
    ensures
        w % 2 == 0,
        w % (n / 2) == 0,
        (w / 2) % (n / 2) == 0,
        w - w / 2 == w / 2,
{
    let q = w / n;
    let k = n / 2;
    assert(w == q * n) by (nonlinear_arith)
        requires
            q == w / n,
            w % n == 0,
            n >= 2,
    ;
    assert(w == 2 * (q * k)) by (nonlinear_arith)
        requires
            w == q * n,
            n == 2 * k,
    ;
    assert(w / 2 == q * k);
    assert((q * k) % k == 0) by (nonlinear_arith)
        requires
            k >= 1,
    ;
    assert(((2 * q) * k) % k == 0) by (nonlinear_arith)
        requires
            k >= 1,
    ;
    assert(w == (2 * q) * k) by (nonlinear_arith)
        requires
            w == 2 * (q * k),
    ;
}

// ── Columns ──────────────────────────────────────────────────────────────────

/// The columns stand side by side from the left edge on, over the whole height,
/// and leave less than a pixel per column at the right edge.
pub proof fn columns_stand_side_by_side(cols: u8, area: Tile, n: nat)
    requires
        cols >= 1,
        n >= 1,
        area.w >= 0,
    ensures
        ({
            let tiles = layout_tiles(LayoutKind::Columns { count: cols }, area, n);
            &&& tiles.len() == n
            &&& tiles[0].x == area.x
            &&& forall|i: int|
                0 <= i < n ==> (#[trigger] tiles[i]).y == area.y && tiles[i].h == area.h
            &&& forall|i: int|
                0 <= i < cols - 1 && i + 1 < n ==> tiles[i + 1].x == (#[trigger] tiles[i]).x
                    + tiles[i].w
            &&& forall|i: int|
                0 <= i < n ==> 0 <= area.w - cols * (#[trigger] tiles[i]).w < cols
            &&& forall|i: int| cols <= i < n ==> #[trigger] tiles[i] == tiles[i - cols]
        }),
{
    let tiles = layout_tiles(LayoutKind::Columns { count: cols }, area, n);
    let c = area.w / (cols as int);
    assert(0 <= area.w - cols * c < cols) by (nonlinear_arith)
        requires
            c == area.w / (cols as int),
            cols >= 1,
    ;
    assert forall|i: int| 0 <= i < n implies #[trigger] tiles[i] == column_tile(
        area,
        cols as int,
        i,
    ) by {}
    assert(tiles[0].x == area.x) by {
        assert(tiles[0] == column_tile(area, cols as int, 0));
        assert(0int % (cols as int) == 0) by (nonlinear_arith)
            requires
                cols >= 1,
        ;
        assert(0 * c == 0) by (nonlinear_arith);
    }
    assert forall|i: int| 0 <= i < cols - 1 && i + 1 < n implies tiles[i + 1].x == (
    #[trigger] tiles[i]).x + tiles[i].w by {
        assert(tiles[i + 1] == column_tile(area, cols as int, i + 1));
        assert(i % (cols as int) == i && (i + 1) % (cols as int) == i + 1) by (nonlinear_arith)
            requires
                0 <= i < cols - 1,
        ;
        assert((i + 1) * c == i * c + c) by (nonlinear_arith);
    }
    assert forall|i: int| cols <= i < n implies #[trigger] tiles[i] == tiles[i - cols] by {
        assert(tiles[i - cols] == column_tile(area, cols as int, i - cols));
        assert((i - cols) % (cols as int) == i % (cols as int)) by (nonlinear_arith)
            requires
                cols >= 1,
                i >= cols,
        ;
    }
}

// ── Three columns ────────────────────────────────────────────────────────────

/// Windows of the same side column are stacked in order, each right below the
/// one before, from the top edge to the bottom edge, equally high but for the
/// last, which takes what is left over.
pub open spec fn stacked(area: Tile, tiles: Seq<Tile>, first: int) -> bool {
    &&& first < tiles.len() ==> tiles[first].y == area.y
    &&& forall|i: int|
        first <= i < tiles.len() - 2 && i % 2 == first % 2 ==> tiles[i + 2].y == (
        #[trigger] tiles[i]).y + tiles[i].h && tiles[i].h == tiles[first].h && tiles[i].h <= tiles[i
            + 2].h
    &&& forall|i: int|
        first <= i < tiles.len() && i + 2 >= tiles.len() && i % 2 == first % 2 ==> (
        #[trigger] tiles[i]).y + tiles[i].h == area.y + area.h
}

/// The first window stands in the centre.  The second, fourth and so on are
/// stacked in the left quarter, the third, fifth and so on in the right quarter.
/// Without a third window the centre reaches to the right edge, else it is what
/// the quarters leave.
pub proof fn center_main_has_three_columns(area: Tile, n: nat)
    requires
        n >= 2,
        area.w >= 0,
        area.h >= 0,
        area.w - area.w / 4 * 2 <= i32::MAX,
    ensures
        ({
            let tiles = layout_tiles(LayoutKind::CenterMain, area, n);
            let quarter = area.w / 4;
            &&& tiles.len() == n
            &&& tiles[0].x == area.x + quarter
            &&& tiles[0].x + tiles[0].w == area.x + area.w - (if n >= 3 {
                quarter
            } else {
                0
            })
            &&& tiles[0].y == area.y && tiles[0].h == area.h
            &&& forall|i: int|
                1 <= i < n ==> (#[trigger] tiles[i]).w == quarter && (if i % 2 == 1 {
                    tiles[i].x == area.x
                } else {
                    tiles[i].x + tiles[i].w == area.x + area.w
                })
            &&& stacked(area, tiles, 1)
            &&& stacked(area, tiles, 2)
        }),
{
    let tiles = layout_tiles(LayoutKind::CenterMain, area, n);
    assert forall|i: int| 0 <= i < n implies #[trigger] tiles[i] == center_main_tile(
        area,
        n as int,
        i,
    ) by {}
    assert(tiles[0] == center_main_tile(area, n as int, 0));
    let nl = n as int / 2;
    let nr = (n as int - 1) / 2;
    lemma_stacked(area, tiles, n as int, 1, nl);
    if n >= 3 {
        lemma_stacked(area, tiles, n as int, 2, nr);
    }
}

proof fn lemma_stacked(area: Tile, tiles: Seq<Tile>, n: int, first: int, cells: int)
    requires
        n >= 2,
        area.h >= 0,
        tiles.len() == n,
        forall|i: int| 0 <= i < n ==> #[trigger] tiles[i] == center_main_tile(area, n, i),
        (first == 1 && cells == n / 2) || (first == 2 && n >= 3 && cells == (n - 1) / 2),
    ensures
        stacked(area, tiles, first),
{
    let c = area.h / cells;
    assert(0 <= c && c * cells <= area.h) by (nonlinear_arith)
        requires
            c == area.h / cells,
            cells >= 1,
            area.h >= 0,
    ;
    assert forall|i: int| first <= i < n && i % 2 == first % 2 implies {
        let k = (i - first) / 2;
        &&& 0 <= k < cells
        &&& (#[trigger] tiles[i]).y == area.y + k * c
        &&& tiles[i].h == (if k + 1 == cells {
            area.h - k * c
        } else {
            c
        })
        &&& (k + 1 == cells <==> i + 2 >= n)
    } by {
        assert(tiles[i] == center_main_tile(area, n, i));
    }
    assert(0 * c == 0) by (nonlinear_arith);
    assert(tiles[first].y == area.y + 0 * c);
    assert forall|i: int| first <= i < tiles.len() - 2 && i % 2 == first % 2 implies tiles[i + 2].y
        == (#[trigger] tiles[i]).y + tiles[i].h && tiles[i].h == tiles[first].h && tiles[i].h
        <= tiles[i + 2].h by {
        let k = (i - first) / 2;
        let below = tiles[i + 2];
        assert((i + 2 - first) / 2 == k + 1);
        assert((k + 1) * c == k * c + c) by (nonlinear_arith);
        assert((k + 2) * c <= c * cells) by (nonlinear_arith)
            requires
                k + 2 <= cells,
                0 <= c,
        ;
        assert((k + 2) * c == k * c + 2 * c) by (nonlinear_arith);
        assert(tiles[first].h == c);
    }
}

} // verus!
