//! Where windows are put, told by their edges, and how their borders look.

use crate::config::{Config, Padding};
use crate::geometry::{
    centre, covers_rect, distance_squared, inset_fits, padded_rect, padding_fits,
};
use crate::layout::{tile_of, LayoutKind};
use crate::layout_laws::{one_tile_per_window, tiles_are_no_larger_than_screen};
use crate::manager::borders::{border_command, border_commands, hex_color, without_hashes};
use crate::manager::event_laws::lemma_filter_order;
use crate::manager::info::{info_of, WindowInfo};
use crate::manager::plan::{
    is_tiled, layout_ready, layout_targets, tile_rect, tiled_windows, workspace_tiles,
};
use crate::manager::plan_laws::only_tiled_windows_are_placed;
use crate::manager::step::Command;
use crate::shape_laws::one_window_gets_everything;
use crate::text::{digit_value, digits_value};
use crate::window::{Rect, WindowId};
use crate::workspace::WorkspaceView;
use vstd::prelude::*;

verus! {

/// Right edge of a rectangle.
pub open spec fn right_of(r: Rect) -> int {
    r.x + r.width
}

/// Bottom edge of a rectangle.
pub open spec fn bottom_of(r: Rect) -> int {
    r.y + r.height
}

// ── Padding and gaps ─────────────────────────────────────────────────────────

/// Padding keeps its number of pixels free at each edge; where both strips of a
/// direction take more than there is, nothing is left.
pub proof fn padding_keeps_the_edges_free(r: Rect, p: Padding)
    requires
        padding_fits(r, p),
        p.left <= i32::MAX,
        p.top <= i32::MAX,
    ensures
        ({
            let q = padded_rect(r, p);
            &&& q.x == r.x + p.left
            &&& q.y == r.y + p.top
            &&& p.left + p.right <= r.width ==> right_of(q) == right_of(r) - p.right
            &&& p.top + p.bottom <= r.height ==> bottom_of(q) == bottom_of(r) - p.bottom
            &&& p.left + p.right > r.width ==> q.width == 0
            &&& p.top + p.bottom > r.height ==> q.height == 0
        }),
{
}

/// A placed window keeps the gap from every edge of its tile, where there is room
/// for it.
pub proof fn windows_keep_the_gap(
    ws: WorkspaceView,
    monitor: Rect,
    config: Config,
    infos: Seq<WindowInfo>,
    i: int,
)
    requires
        layout_ready(ws, monitor, config, infos),
        0 <= i < layout_targets(ws, monitor, config, infos).len(),
    ensures
        ({
            let t = workspace_tiles(ws, monitor, config, infos)[i];
            let to = layout_targets(ws, monitor, config, infos)[i].to;
            &&& to.x - t.x == config.gap
            &&& to.y - t.y == config.gap
            &&& 2 * config.gap <= t.w ==> (t.x + t.w) - right_of(to) == config.gap
            &&& 2 * config.gap <= t.h ==> (t.y + t.h) - bottom_of(to) == config.gap
            &&& 2 * config.gap > t.w ==> to.width == 0
            &&& 2 * config.gap > t.h ==> to.height == 0
        }),
{
    let tiles = workspace_tiles(ws, monitor, config, infos);
    let area = padded_rect(monitor, config.padding);
    tiles_are_no_larger_than_screen(ws.layout, area, tiled_windows(ws, infos).len());
    let t = tiles[i];
    assert(inset_fits(tile_rect(t), config.gap));
    assert(tile_of(tile_rect(t)) == t);
}

/// A window that is alone in the layout fills the monitor but for the padding
/// and the gap.
pub proof fn a_lone_window_fills_the_monitor(
    ws: WorkspaceView,
    monitor: Rect,
    config: Config,
    infos: Seq<WindowInfo>,
)
    requires
        layout_ready(ws, monitor, config, infos),
        tiled_windows(ws, infos).len() == 1,
        ws.layout is Fibonacci || ws.layout is Bsp || ws.layout is CenterMain
            || ws.layout is Monocle,
        config.padding.left <= i32::MAX,
        config.padding.top <= i32::MAX,
        config.padding.left + config.padding.right + 2 * config.gap <= monitor.width,
        config.padding.top + config.padding.bottom + 2 * config.gap <= monitor.height,
    ensures
        ({
            let targets = layout_targets(ws, monitor, config, infos);
            let to = targets[0].to;
            &&& targets.len() == 1
            &&& to.x == monitor.x + config.padding.left + config.gap
            &&& to.y == monitor.y + config.padding.top + config.gap
            &&& right_of(to) == right_of(monitor) - config.padding.right - config.gap
            &&& bottom_of(to) == bottom_of(monitor) - config.padding.bottom - config.gap
        }),
{
    let area = tile_of(padded_rect(monitor, config.padding));
    one_window_gets_everything(ws.layout, area);
    one_tile_per_window(ws.layout, area, 1);
    windows_keep_the_gap(ws, monitor, config, infos, 0);
    padding_keeps_the_edges_free(monitor, config.padding);
}

// ── Order ────────────────────────────────────────────────────────────────────

/// Tiles are given out in the order of the windows: of two placed windows the
/// one earlier in the workspace has the earlier tile.  Each comes from where it
/// is known to stand.
pub proof fn tiles_are_given_out_in_order(
    ws: WorkspaceView,
    monitor: Rect,
    config: Config,
    infos: Seq<WindowInfo>,
    i: int,
    j: int,
    ki: int,
    kj: int,
)
    requires
        ws.windows.no_duplicates(),
        0 <= i < j < layout_targets(ws, monitor, config, infos).len(),
        0 <= ki < ws.windows.len(),
        0 <= kj < ws.windows.len(),
        layout_targets(ws, monitor, config, infos)[i].id == ws.windows[ki],
        layout_targets(ws, monitor, config, infos)[j].id == ws.windows[kj],
    ensures
        ki < kj,
        layout_targets(ws, monitor, config, infos)[i].from == info_of(
            infos,
            ws.windows[ki],
        )->0.geometry,
{
    let area = tile_of(padded_rect(monitor, config.padding));
    one_tile_per_window(ws.layout, area, tiled_windows(ws, infos).len());
    lemma_filter_order(ws.windows, is_tiled(ws, infos), i, j, ki, kj);
}

/// Exactly the windows in the layout get a tile: those of the workspace that are
/// known, not fullscreen, not floating and not minimised, unless the layout has
/// no tiles.
pub proof fn only_windows_in_the_layout_get_a_tile(
    ws: WorkspaceView,
    monitor: Rect,
    config: Config,
    infos: Seq<WindowInfo>,
    id: WindowId,
)
    requires
        !(ws.layout is Float) && ws.layout != (LayoutKind::Columns { count: 0 }),
    ensures
        (exists|i: int|
            0 <= i < layout_targets(ws, monitor, config, infos).len() && (
            #[trigger] layout_targets(ws, monitor, config, infos)[i]).id == id) <==> {
            &&& ws.windows.contains(id)
            &&& !ws.fullscreen.contains_key(id.0)
            &&& info_of(infos, id) matches Some(w) && !w.floating && !w.minimized
        },
{
    only_tiled_windows_are_placed(ws, monitor, config, infos);
}

// ── Measures ─────────────────────────────────────────────────────────────────

/// A window covers a monitor exactly when every pixel of the monitor is a pixel
/// of the window.
pub proof fn covering_is_by_pixels(window: Rect, monitor: Rect)
    requires
        window.width <= i32::MAX,
        window.height <= i32::MAX,
        0 < monitor.width <= i32::MAX,
        0 < monitor.height <= i32::MAX,
    ensures
        covers_rect(window, monitor) <==> forall|px: int, py: int| #[trigger]
            tile_of(monitor).covers(px, py) ==> tile_of(window).covers(px, py),
{
    if forall|px: int, py: int| #[trigger]
        tile_of(monitor).covers(px, py) ==> tile_of(window).covers(px, py) {
        assert(tile_of(monitor).covers(monitor.x as int, monitor.y as int));
        assert(tile_of(monitor).covers(right_of(monitor) - 1, bottom_of(monitor) - 1));
    }
}

/// The centre of a rectangle is as far from its left edge as from its right, and
/// from its top as from its bottom, up to one pixel.
pub proof fn the_centre_is_in_the_middle(r: Rect)
    requires
        r.width <= i32::MAX,
        r.height <= i32::MAX,
    ensures
        ({
            let (x, y) = centre(r);
            &&& 0 <= (right_of(r) - x) - (x - r.x) <= 1
            &&& 0 <= (bottom_of(r) - y) - (y - r.y) <= 1
        }),
{
}

/// The distance of two points is the same either way, and zero only for the same
/// point; along one axis it is the square of the difference.
pub proof fn distance_is_a_measure(a: (int, int), b: (int, int))
    ensures
        distance_squared(a, b) == distance_squared(b, a),
        distance_squared(a, b) >= 0,
        distance_squared(a, b) == 0 <==> a == b,
        a.1 == b.1 ==> distance_squared(a, b) == (a.0 - b.0) * (a.0 - b.0),
        a.0 == b.0 ==> distance_squared(a, b) == (a.1 - b.1) * (a.1 - b.1),
{
    let (x, y) = (a.0 - b.0, a.1 - b.1);
    assert(x * x == (-x) * (-x) && y * y == (-y) * (-y) && x * x >= 0 && y * y >= 0 && (x * x == 0
        <==> x == 0) && (y * y == 0 <==> y == 0)) by (nonlinear_arith);
    assert(b.0 - a.0 == -x && b.1 - a.1 == -y);
}

// ── Borders ──────────────────────────────────────────────────────────────────

/// A window that neither covers its monitor nor is fullscreen or minimised shows
/// a border of the configured width and radius: in the active colour if it has
/// the focus, else in the inactive one.  In a monocle layout that holds of the
/// focused window only.
pub proof fn ordinary_windows_show_their_border(
    ws: WorkspaceView,
    focused: Option<WindowId>,
    config: Config,
    w: WindowInfo,
)
    requires
        !ws.is_full(w.id),
        !w.minimized,
        !covers_rect(w.geometry, w.full_rect),
        !(ws.layout is Monocle) || focused == Some(w.id),
    ensures
        border_command(ws, focused, config, w) matches Command::SetBorder {
            id,
            rgb,
            width,
            radius,
        } && {
            &&& id == w.id
            &&& width == config.border_width
            &&& radius == config.border_radius
            &&& focused == Some(w.id) ==> rgb == hex_color(config.border_active@)
            &&& focused != Some(w.id) ==> rgb == hex_color(config.border_inactive@)
        },
{
}

/// A window that covers its whole monitor shows no border.
pub proof fn windows_over_the_whole_monitor_show_no_border(
    ws: WorkspaceView,
    focused: Option<WindowId>,
    config: Config,
    w: WindowInfo,
)
    requires
        covers_rect(w.geometry, w.full_rect) || ws.is_full(w.id) || w.minimized,
    ensures
        border_command(ws, focused, config, w) == (Command::HideBorder { id: w.id }),
{
}

/// Every known window of a workspace has its border settled.
pub proof fn every_window_has_its_border_settled(
    ws: WorkspaceView,
    ids: Seq<WindowId>,
    focused: Option<WindowId>,
    config: Config,
    infos: Seq<WindowInfo>,
    k: int,
)
    requires
        0 <= k < ids.len(),
        info_of(infos, ids[k]) is Some,
    ensures
        border_commands(ws, ids, focused, config, infos).contains(
            border_command(ws, focused, config, info_of(infos, ids[k])->0),
        ),
    decreases ids.len(),
{
    let rest = ids.drop_last();
    let before = border_commands(ws, rest, focused, config, infos);
    let all = border_commands(ws, ids, focused, config, infos);
    let c = border_command(ws, focused, config, info_of(infos, ids[k])->0);
    if k == ids.len() - 1 {
        assert(all[before.len() as int] == c);
    } else {
        assert(rest[k] == ids[k]);
        every_window_has_its_border_settled(ws, rest, focused, config, infos, k);
        let q = choose|q: int| 0 <= q < before.len() && before[q] == c;
        assert(all[q] == c);
    }
}

proof fn lemma_six_digits(d: Seq<char>)
    requires
        d.len() == 6,
    ensures
        digits_value(d, 16) == digit_value(d[0]) * 0x10_0000 + digit_value(d[1]) * 0x1_0000
            + digit_value(d[2]) * 0x1000 + digit_value(d[3]) * 0x100 + digit_value(d[4]) * 0x10
            + digit_value(d[5]),
{
    let d5 = d.drop_last();
    let d4 = d5.drop_last();
    let d3 = d4.drop_last();
    let d2 = d3.drop_last();
    let d1 = d2.drop_last();
    assert(digits_value(d1.drop_last(), 16) == 0);
    assert(digits_value(d1, 16) == digit_value(d[0]));
    assert(digits_value(d2, 16) == digits_value(d1, 16) * 16 + digit_value(d[1]));
    assert(digits_value(d3, 16) == digits_value(d2, 16) * 16 + digit_value(d[2]));
    assert(digits_value(d4, 16) == digits_value(d3, 16) * 16 + digit_value(d[3]));
    assert(digits_value(d5, 16) == digits_value(d4, 16) * 16 + digit_value(d[4]));
    assert(digits_value(d, 16) == digits_value(d5, 16) * 16 + digit_value(d[5]));
}

/// A colour `#RRGGBB` has two hexadecimal digits for red, then green, then blue,
/// in either case of letters.
pub proof fn colours_are_read_by_pairs(s: Seq<char>)
    requires
        s.len() == 7,
        s[0] == '#',
        forall|i: int| 1 <= i < 7 ==> digit_value(#[trigger] s[i]) < 16,
    ensures
        ({
            let red = digit_value(s[1]) * 16 + digit_value(s[2]);
            let green = digit_value(s[3]) * 16 + digit_value(s[4]);
            let blue = digit_value(s[5]) * 16 + digit_value(s[6]);
            hex_color(s) == red * 0x1_0000 + green * 0x100 + blue
        }),
{
    let d = s.skip(1);
    assert(d[0] == s[1]);
    assert(without_hashes(s) == d) by {
        reveal_with_fuel(without_hashes, 2);
        assert(d[0] != '#');
    }
    lemma_six_digits(d);
    assert forall|i: int| 0 <= i < 6 implies digit_value(#[trigger] d[i]) < 16 by {
        assert(d[i] == s[i + 1]);
    }
    assert(d[0] != '+');
    assert(d[1] == s[2] && d[2] == s[3] && d[3] == s[4] && d[4] == s[5] && d[5] == s[6]);
}

/// What is no hexadecimal number is shown in grey.
pub proof fn unreadable_colours_are_grey(s: Seq<char>)
    requires
        s.len() > 0,
        s[0] != '#',
        s[0] != '+',
        digit_value(s[0]) >= 16,
    ensures
        hex_color(s) == 0x88_88_88,
{
    assert(without_hashes(s) == s);
}

} // verus!
