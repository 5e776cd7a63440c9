//! Tiling layout algorithms.
//!
//! Each variant of [`LayoutKind`] is a pure function from a screen [`Rect`] and
//! a window count to one [`Slot`] per window.  The tiles themselves are
//! described over unbounded integers by [`layout_tiles`]; [`compute`] produces
//! exactly those tiles.

use crate::geometry::{as_i32, wrap_i32};
use crate::window::Rect;
use vstd::prelude::*;

verus! {

/// Available tiling strategies.
#[derive(Debug, Clone, Copy, PartialEq, Eq, Structural)]
pub enum LayoutKind {
    /// Dwindle spiral: window 0 takes the first half, the rest recurse into the
    /// remaining half, alternating horizontal and vertical splits.
    Fibonacci,
    /// Binary space partition: recursively halves the screen.
    Bsp,
    /// Fixed number of equal-width columns.
    Columns { count: u8 },
    /// All windows occupy the full screen, stacked in z-order.
    Monocle,
    /// Ultrawide-optimised three-column layout: window 0 in the centre half,
    /// odd-indexed windows stacked in the left quarter, the others in the right
    /// quarter.  While the right column is empty the centre extends over it.
    CenterMain,
    /// All windows unmanaged.
    Float,
}

impl Default for LayoutKind {
    fn default() -> (r: Self)
        ensures
            r == LayoutKind::Fibonacci,
    {
        LayoutKind::Fibonacci
    }
}

/// Geometry assignment for one window slot.
#[derive(Debug, Clone, Copy, PartialEq, Eq, Structural)]
pub struct Slot {
    pub rect: Rect,
}

// ── Tiles over the integers ──────────────────────────────────────────────────

/// A rectangle over the integers.
pub struct Tile {
    pub x: int,
    pub y: int,
    pub w: int,
    pub h: int,
}

/// The tile that a screen rectangle covers.
pub open spec fn tile_of(r: Rect) -> Tile {
    Tile { x: r.x as int, y: r.y as int, w: r.width as int, h: r.height as int }
}

/// The tiles of a list of slots.
pub open spec fn slot_tiles(slots: Seq<Slot>) -> Seq<Tile> {
    Seq::new(slots.len(), |i: int| tile_of(slots[i].rect))
}

impl Tile {
    /// The pixel `(px, py)` lies on this tile.
    pub open spec fn covers(self, px: int, py: int) -> bool {
        &&& self.x <= px < self.x + self.w
        &&& self.y <= py < self.y + self.h
    }

    pub open spec fn left_half(self) -> Tile {
        Tile { w: self.w / 2, ..self }
    }

    pub open spec fn right_half(self) -> Tile {
        Tile { x: self.x + self.w / 2, w: self.w - self.w / 2, ..self }
    }

    pub open spec fn top_half(self) -> Tile {
        Tile { h: self.h / 2, ..self }
    }

    pub open spec fn bottom_half(self) -> Tile {
        Tile { y: self.y + self.h / 2, h: self.h - self.h / 2, ..self }
    }
}

/// Dwindle spiral of `n` tiles; `horizontal` says whether the next split puts
/// the halves side by side.
pub open spec fn fibonacci_tiles(area: Tile, horizontal: bool, n: nat) -> Seq<Tile>
    decreases n,
{
    if n == 0 {
        seq![]
    } else if n == 1 {
        seq![area]
    } else if horizontal {
        seq![area.left_half()] + fibonacci_tiles(area.right_half(), false, (n - 1) as nat)
    } else {
        seq![area.top_half()] + fibonacci_tiles(area.bottom_half(), true, (n - 1) as nat)
    }
}

/// Binary space partition of `n` tiles: the longer side is halved and the
/// windows are shared out between the halves.
pub open spec fn bsp_tiles(area: Tile, n: nat) -> Seq<Tile>
    decreases n,
{
    if n == 0 {
        seq![]
    } else if n == 1 {
        seq![area]
    } else if area.w >= area.h {
        bsp_tiles(area.left_half(), n / 2) + bsp_tiles(area.right_half(), (n - n / 2) as nat)
    } else {
        bsp_tiles(area.top_half(), n / 2) + bsp_tiles(area.bottom_half(), (n - n / 2) as nat)
    }
}

/// Tile `i` of `cols` equal-width columns, filled round-robin.
pub open spec fn column_tile(area: Tile, cols: int, i: int) -> Tile {
    Tile { x: area.x + (i % cols) * (area.w / cols), w: area.w / cols, ..area }
}

/// Cell `k` of an area divided into `n` stacked cells of equal height, the last
/// of which takes what is left over.
pub open spec fn stacked_cell(area: Tile, n: int, k: int) -> Tile {
    Tile {
        y: area.y + k * (area.h / n),
        h: if k + 1 == n {
            area.h - k * (area.h / n)
        } else {
            area.h / n
        },
        ..area
    }
}

/// Left quarter of a three-column screen.
pub open spec fn left_column(area: Tile) -> Tile {
    Tile { w: area.w / 4, ..area }
}

/// Centre of a three-column screen with `n` windows; it reaches to the right
/// edge while no window is in the right column.
pub open spec fn centre_column(area: Tile, n: int) -> Tile {
    Tile {
        x: area.x + area.w / 4,
        w: if n < 3 {
            area.w - area.w / 4
        } else {
            area.w - area.w / 4 * 2
        },
        ..area
    }
}

/// Right quarter of a three-column screen.
pub open spec fn right_column(area: Tile) -> Tile {
    Tile {
        x: area.x + area.w / 4 + wrap_i32(area.w - area.w / 4 * 2),
        w: area.w / 4,
        ..area
    }
}

/// Tile `i` of the three-column layout with `n >= 2` windows.
pub open spec fn center_main_tile(area: Tile, n: int, i: int) -> Tile {
    if i == 0 {
        centre_column(area, n)
    } else if i % 2 == 1 {
        stacked_cell(left_column(area), n / 2, i / 2)
    } else {
        stacked_cell(right_column(area), (n - 1) / 2, i / 2 - 1)
    }
}

/// The tiles of `n` windows laid out as `kind` on `area`.
pub open spec fn layout_tiles(kind: LayoutKind, area: Tile, n: nat) -> Seq<Tile> {
    match kind {
        LayoutKind::Fibonacci => fibonacci_tiles(area, true, n),
        LayoutKind::Bsp => bsp_tiles(area, n),
        LayoutKind::Columns { count } => if count == 0 {
            seq![]
        } else {
            Seq::new(n, |i: int| column_tile(area, count as int, i))
        },
        LayoutKind::Monocle => Seq::new(n, |i: int| area),
        LayoutKind::CenterMain => if n <= 1 {
            Seq::new(n, |i: int| area)
        } else {
            Seq::new(n, |i: int| center_main_tile(area, n as int, i))
        },
        LayoutKind::Float => seq![],
    }
}

/// `v` is an `i32`.
pub open spec fn is_i32(v: int) -> bool {
    i32::MIN <= v <= i32::MAX
}

/// Every tile's corner is an `i32`.
pub open spec fn corners_fit(tiles: Seq<Tile>) -> bool {
    forall|i: int|
        0 <= i < tiles.len() ==> is_i32((#[trigger] tiles[i]).x) && is_i32(tiles[i].y)
}

/// The layout of `n` windows on `area` can be computed in 32-bit coordinates:
/// every tile's corner is representable, and so is every offset that the column
/// layouts multiply out.
pub open spec fn layout_fits(kind: LayoutKind, area: Tile, n: nat) -> bool {
    let tiles = layout_tiles(kind, area, n);
    &&& corners_fit(tiles)
    &&& kind is Columns ==> forall|i: int|
        0 <= i < tiles.len() ==> (#[trigger] tiles[i]).x - area.x <= i32::MAX
    &&& kind is CenterMain ==> n <= u32::MAX && forall|i: int|
        0 <= i < tiles.len() ==> (#[trigger] tiles[i]).y - area.y <= i32::MAX
}

// ── Computation ──────────────────────────────────────────────────────────────

/// Compute slot geometry for `count` windows on `screen` using `kind`.
///
/// The result is empty when `count` is zero or the layout produces no tiles.
pub fn compute(kind: &LayoutKind, screen: Rect, count: usize) -> (slots: Vec<Slot>)
    requires
        layout_fits(*kind, tile_of(screen), count as nat),
    ensures
        slot_tiles(slots@) == layout_tiles(*kind, tile_of(screen), count as nat),
{
    match kind {
        LayoutKind::Fibonacci => fibonacci(screen, count),
        LayoutKind::Bsp => bsp(screen, count),
        LayoutKind::Columns { count: c } => columns(screen, count, *c as usize),
        LayoutKind::Monocle => {
            let mut slots: Vec<Slot> = Vec::new();
            let mut i: usize = 0;
            while i < count
                invariant
                    i <= count,
                    slot_tiles(slots@) =~= Seq::new(i as nat, |j: int| tile_of(screen)),
                decreases count - i,
            {
                proof {
                    lemma_push_slot(slots@, Slot { rect: screen });
                }
                slots.push(Slot { rect: screen });
                i += 1;
            }
            slots
        },
        LayoutKind::CenterMain => center_main(screen, count),
        LayoutKind::Float => Vec::new(),
    }
}

proof fn lemma_push_slot(slots: Seq<Slot>, slot: Slot)
    ensures
        slot_tiles(slots.push(slot)) == slot_tiles(slots).push(tile_of(slot.rect)),
{
    assert(slot_tiles(slots.push(slot)) =~= slot_tiles(slots).push(tile_of(slot.rect)));
}

fn left_half(r: Rect) -> (h: Rect)
    ensures
        tile_of(h) == tile_of(r).left_half(),
{
    Rect::new(r.x, r.y, r.width / 2, r.height)
}

fn right_half(r: Rect) -> (h: Rect)
    requires
        r.x + r.width / 2 <= i32::MAX,
    ensures
        tile_of(h) == tile_of(r).right_half(),
{
    let half = r.width / 2;
    Rect::new(r.x + half as i32, r.y, r.width - half, r.height)
}

fn top_half(r: Rect) -> (h: Rect)
    ensures
        tile_of(h) == tile_of(r).top_half(),
{
    Rect::new(r.x, r.y, r.width, r.height / 2)
}

fn bottom_half(r: Rect) -> (h: Rect)
    requires
        r.y + r.height / 2 <= i32::MAX,
    ensures
        tile_of(h) == tile_of(r).bottom_half(),
{
    let half = r.height / 2;
    Rect::new(r.x, r.y + half as i32, r.width, r.height - half)
}

proof fn lemma_corners_split(a: Seq<Tile>, b: Seq<Tile>)
    requires
        corners_fit(a + b),
    ensures
        corners_fit(a),
        corners_fit(b),
{
    assert forall|i: int| 0 <= i < a.len() implies is_i32((#[trigger] a[i]).x) && is_i32(
        a[i].y,
    ) by {
        assert((a + b)[i] == a[i]);
    }
    assert forall|i: int| 0 <= i < b.len() implies is_i32((#[trigger] b[i]).x) && is_i32(
        b[i].y,
    ) by {
        assert((a + b)[a.len() + i] == b[i]);
    }
}

/// The first tile of a spiral has the corner of its area.
proof fn lemma_fibonacci_first(area: Tile, horizontal: bool, n: nat)
    requires
        n >= 1,
    ensures
        fibonacci_tiles(area, horizontal, n).len() == n,
        fibonacci_tiles(area, horizontal, n)[0].x == area.x,
        fibonacci_tiles(area, horizontal, n)[0].y == area.y,
    decreases n,
{
    if n > 1 {
        if horizontal {
            lemma_fibonacci_first(area.right_half(), false, (n - 1) as nat);
        } else {
            lemma_fibonacci_first(area.bottom_half(), true, (n - 1) as nat);
        }
    }
}

/// The first tile of a partition has the corner of its area.
proof fn lemma_bsp_first(area: Tile, n: nat)
    ensures
        bsp_tiles(area, n).len() == n,
        n >= 1 ==> bsp_tiles(area, n)[0].x == area.x && bsp_tiles(area, n)[0].y == area.y,
    decreases n,
{
    if n > 1 {
        if area.w >= area.h {
            lemma_bsp_first(area.left_half(), n / 2);
            lemma_bsp_first(area.right_half(), (n - n / 2) as nat);
        } else {
            lemma_bsp_first(area.top_half(), n / 2);
            lemma_bsp_first(area.bottom_half(), (n - n / 2) as nat);
        }
    }
}

/// Dwindle spiral: window 0 occupies the head half of the screen; the remaining
/// windows recurse into the tail half, alternating the split axis.
fn fibonacci(screen: Rect, count: usize) -> (slots: Vec<Slot>)
    requires
        corners_fit(fibonacci_tiles(tile_of(screen), true, count as nat)),
    ensures
        slot_tiles(slots@) == fibonacci_tiles(tile_of(screen), true, count as nat),
{
    let mut slots: Vec<Slot> = Vec::new();
    if count == 0 {
        return slots;
    }
    let ghost whole = fibonacci_tiles(tile_of(screen), true, count as nat);
    let mut area = screen;
    let mut split_h = true;
    let mut i: usize = 0;
    assert(slot_tiles(slots@) + whole =~= whole);
    while i + 1 < count
        invariant
            i + 1 <= count,
            slots@.len() == i,
            whole == fibonacci_tiles(tile_of(screen), true, count as nat),
            corners_fit(whole),
            whole == slot_tiles(slots@) + fibonacci_tiles(
                tile_of(area),
                split_h,
                (count - i) as nat,
            ),
        decreases count - i,
    {
        let ghost before = slot_tiles(slots@);
        let ghost rest = fibonacci_tiles(tile_of(area), split_h, (count - i) as nat);
        proof {
            lemma_corners_split(before, rest);
        }
        let ghost n = (count - i - 1) as nat;
        if split_h {
            proof {
                lemma_fibonacci_first(tile_of(area).right_half(), false, n);
                assert(is_i32(rest[1].x));
            }
            let head = left_half(area);
            slots.push(Slot { rect: head });
            assert(slot_tiles(slots@) =~= before.push(tile_of(head)));
            area = right_half(area);
            split_h = false;
        } else {
            proof {
                lemma_fibonacci_first(tile_of(area).bottom_half(), true, n);
                assert(is_i32(rest[1].y));
            }
            let head = top_half(area);
            slots.push(Slot { rect: head });
            assert(slot_tiles(slots@) =~= before.push(tile_of(head)));
            area = bottom_half(area);
            split_h = true;
        }
        assert(whole =~= slot_tiles(slots@) + fibonacci_tiles(tile_of(area), split_h, n));
        i += 1;
    }
    let ghost before = slot_tiles(slots@);
    slots.push(Slot { rect: area });
    assert(slot_tiles(slots@) =~= before + seq![tile_of(area)]);
    slots
}

/// Binary space partition.
fn bsp(screen: Rect, count: usize) -> (slots: Vec<Slot>)
    requires
        corners_fit(bsp_tiles(tile_of(screen), count as nat)),
    ensures
        slot_tiles(slots@) == bsp_tiles(tile_of(screen), count as nat),
    decreases count,
{
    let mut slots: Vec<Slot> = Vec::new();
    if count == 0 {
        return slots;
    }
    if count == 1 {
        slots.push(Slot { rect: screen });
        assert(slot_tiles(slots@) =~= seq![tile_of(screen)]);
        return slots;
    }
    let left: usize = count / 2;
    let ghost area = tile_of(screen);
    let ghost (fst, snd) = if area.w >= area.h {
        (area.left_half(), area.right_half())
    } else {
        (area.top_half(), area.bottom_half())
    };
    proof {
        lemma_bsp_first(snd, (count - left) as nat);
        lemma_corners_split(bsp_tiles(fst, left as nat), bsp_tiles(snd, (count - left) as nat));
        assert(is_i32(bsp_tiles(snd, (count - left) as nat)[0].x));
    }
    let (a, b) = if screen.width >= screen.height {
        (left_half(screen), right_half(screen))
    } else {
        (top_half(screen), bottom_half(screen))
    };
    slots = bsp(a, left);
    let ghost first = slots@;
    let mut tail = bsp(b, count - left);
    let ghost second = tail@;
    slots.append(&mut tail);
    assert(slot_tiles(slots@) =~= slot_tiles(first) + slot_tiles(second));
    slots
}

/// Equal-width columns, filled round-robin.
fn columns(screen: Rect, count: usize, cols: usize) -> (slots: Vec<Slot>)
    requires
        cols <= 255,
        layout_fits(LayoutKind::Columns { count: cols as u8 }, tile_of(screen), count as nat),
    ensures
        slot_tiles(slots@) == layout_tiles(
            LayoutKind::Columns { count: cols as u8 },
            tile_of(screen),
            count as nat,
        ),
{
    let mut slots: Vec<Slot> = Vec::new();
    let ghost area = tile_of(screen);
    let ghost tiles = layout_tiles(LayoutKind::Columns { count: cols as u8 }, area, count as nat);
    if count == 0 || cols == 0 {
        assert(slot_tiles(slots@) =~= tiles);
        return slots;
    }
    let col_w: u32 = screen.width / cols as u32;
    let mut i: usize = 0;
    while i < count
        invariant
            i <= count,
            0 < cols <= 255,
            area == tile_of(screen),
            col_w == screen.width / cols as u32,
            tiles == layout_tiles(
                LayoutKind::Columns { count: cols as u8 },
                area,
                count as nat,
            ),
            layout_fits(LayoutKind::Columns { count: cols as u8 }, area, count as nat),
            slot_tiles(slots@) == tiles.take(i as int),
        decreases count - i,
    {
        let column: i32 = (i % cols) as i32;
        assert(tiles[i as int] == column_tile(area, cols as int, i as int));
        assert(tiles[i as int].x - area.x == column * col_w);
        proof {
            if cols > 1 {
                assert(col_w as int <= i32::MAX) by (nonlinear_arith)
                    requires
                        col_w == screen.width / cols as u32,
                        cols >= 2,
                        cols <= 255,
                ;
            } else {
                assert(i % cols == 0) by (nonlinear_arith)
                    requires
                        cols == 1,
                ;
            }
            assert(0 <= column * wrap_i32(col_w as int)) by (nonlinear_arith)
                requires
                    column == 0 || wrap_i32(col_w as int) >= 0,
                    column >= 0,
            ;
            assert(column == 0 ==> column * wrap_i32(col_w as int) == 0 && column * col_w == 0)
                by (nonlinear_arith);
        }
        let offset: i32 = column * as_i32(col_w);
        let rect = Rect::new(screen.x + offset, screen.y, col_w, screen.height);
        assert(tile_of(rect) == tiles[i as int]);
        proof {
            lemma_push_slot(slots@, Slot { rect });
        }
        slots.push(Slot { rect });
        assert(slot_tiles(slots@) =~= tiles.take(i + 1));
        i += 1;
    }
    assert(tiles.take(count as int) =~= tiles);
    slots
}

/// Cell `k` of `area` divided into `n` stacked cells.
fn cell(area: Rect, n: usize, k: usize) -> (r: Rect)
    requires
        0 <= k < n <= 0x8000_0000,
        stacked_cell(tile_of(area), n as int, k as int).y - area.y <= i32::MAX,
        is_i32(stacked_cell(tile_of(area), n as int, k as int).y),
    ensures
        tile_of(r) == stacked_cell(tile_of(area), n as int, k as int),
{
    let h: u32 = area.height / n as u32;
    proof {
        assert(h == area.height as int / n as int);
        assert(0 <= k * h <= area.height) by (nonlinear_arith)
            requires
                0 <= k < n,
                n > 0,
                h == area.height as int / n as int,
        ;
        if n > 1 {
            assert(h as int <= i32::MAX) by (nonlinear_arith)
                requires
                    h == area.height as int / n as int,
                    n >= 2,
                    area.height <= u32::MAX,
            ;
        }
        assert(k == 0 ==> k * h == 0 && k as i32 * wrap_i32(h as int) == 0) by (nonlinear_arith);
    }
    let offset: i32 = k as i32 * as_i32(h);
    let height: u32 = if k + 1 == n {
        area.height - k as u32 * h
    } else {
        h
    };
    Rect::new(area.x, area.y + offset, area.width, height)
}

/// Three-column layout: slot 0 in the centre, odd-indexed slots stacked in the
/// left column, even-indexed slots stacked in the right column.
fn center_main(screen: Rect, count: usize) -> (slots: Vec<Slot>)
    requires
        layout_fits(LayoutKind::CenterMain, tile_of(screen), count as nat),
    ensures
        slot_tiles(slots@) == layout_tiles(LayoutKind::CenterMain, tile_of(screen), count as nat),
{
    let mut slots: Vec<Slot> = Vec::new();
    let ghost area = tile_of(screen);
    let ghost tiles = layout_tiles(LayoutKind::CenterMain, area, count as nat);
    if count == 0 {
        assert(slot_tiles(slots@) =~= tiles);
        return slots;
    }
    if count == 1 {
        slots.push(Slot { rect: screen });
        assert(slot_tiles(slots@) =~= tiles);
        return slots;
    }
    let side_w: u32 = screen.width / 4;
    let center_w: u32 = screen.width - side_w * 2;
    let left_count: usize = count / 2;
    let right_count: usize = (count - 1) / 2;

    assert(tiles[0] == centre_column(area, count as int));
    let centre_x: i32 = screen.x + side_w as i32;
    let centre = if right_count == 0 {
        Rect::new(centre_x, screen.y, screen.width - side_w, screen.height)
    } else {
        Rect::new(centre_x, screen.y, center_w, screen.height)
    };
    slots.push(Slot { rect: centre });
    assert(slot_tiles(slots@) =~= tiles.take(1));

    let left = Rect::new(screen.x, screen.y, side_w, screen.height);
    let mut i: usize = 1;
    while i < count
        invariant
            1 <= i <= count,
            2 <= count <= u32::MAX,
            area == tile_of(screen),
            tiles == layout_tiles(LayoutKind::CenterMain, area, count as nat),
            layout_fits(LayoutKind::CenterMain, area, count as nat),
            side_w == screen.width / 4,
            center_w == screen.width - side_w * 2,
            left_count == count / 2,
            right_count == (count - 1) / 2,
            centre_x == screen.x + side_w,
            left == (Rect { width: side_w, ..screen }),
            slot_tiles(slots@) == tiles.take(i as int),
        decreases count - i,
    {
        assert(tiles[i as int] == center_main_tile(area, count as int, i as int));
        let rect = if i % 2 == 1 {
            assert(tile_of(left) == left_column(area));
            cell(left, left_count, i / 2)
        } else {
            assert(tiles[i as int].x == right_column(area).x);
            let right = Rect::new(
                centre_x + as_i32(center_w),
                screen.y,
                side_w,
                screen.height,
            );
            assert(tile_of(right) == right_column(area));
            cell(right, right_count, i / 2 - 1)
        };
        proof {
            lemma_push_slot(slots@, Slot { rect });
        }
        slots.push(Slot { rect });
        assert(slot_tiles(slots@) =~= tiles.take(i + 1));
        i += 1;
    }
    assert(tiles.take(count as int) =~= tiles);
    slots
}

} // verus!
