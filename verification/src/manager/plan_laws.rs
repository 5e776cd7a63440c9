//! What holds of the places that windows are put, of their borders, and of the
//! line that status bars are sent.

use crate::config::Config;
use crate::geometry::{inset_fits, padded_rect};
use crate::layout::{tile_of, LayoutKind};
use crate::layout_laws::{
    dividing_layouts_divide, one_tile_per_window, tiles_are_no_larger_than_screen,
    tiles_stay_on_screen,
};
use crate::manager::actions::tileless;
use crate::manager::borders::{border_command, hex_color};
use crate::manager::info::{info_of, tileable, WindowInfo};
use crate::manager::plan::{
    full_commands, is_full_command, is_tiled, layout_ready, layout_targets, place_commands,
    tile_rect, tiled_windows, workspace_tiles, Target,
};
use crate::manager::step::Command;
use crate::window::{Rect, WindowId};
use crate::workspace::WorkspaceView;
use vstd::prelude::*;

verus! {

/// Only windows that take part in tiling are placed: none that is unknown,
/// floating, minimised or fullscreen; and unless the layout has no tiles, all
/// of them are.
pub proof fn only_tiled_windows_are_placed(
    ws: WorkspaceView,
    monitor: Rect,
    config: Config,
    infos: Seq<WindowInfo>,
)
    ensures
        ({
            let targets = layout_targets(ws, monitor, config, infos);
            &&& forall|i: int|
                0 <= i < targets.len() ==> ws.windows.contains((#[trigger] targets[i]).id)
                    && !ws.is_full(targets[i].id) && tileable(infos, targets[i].id)
            &&& ws.layout is Float || ws.layout == (LayoutKind::Columns { count: 0 })
                || forall|id: WindowId|
                #![trigger ws.windows.contains(id)]
                ws.windows.contains(id) && !ws.is_full(id) && tileable(infos, id) ==> exists|i: int|
                    0 <= i < targets.len() && (#[trigger] targets[i]).id == id
        }),
{
    let p = is_tiled(ws, infos);
    let tiled = tiled_windows(ws, infos);
    let targets = layout_targets(ws, monitor, config, infos);
    let area = tile_of(padded_rect(monitor, config.padding));
    one_tile_per_window(ws.layout, area, tiled.len());
    assert forall|i: int| 0 <= i < targets.len() implies ws.windows.contains(
        (#[trigger] targets[i]).id,
    ) && !ws.is_full(targets[i].id) && tileable(infos, targets[i].id) by {
        ws.windows.lemma_filter_pred(p, i);
        assert(tiled.contains(tiled[i]));
        ws.windows.lemma_filter_contains_rev(p, tiled[i]);
    }
    if !(ws.layout is Float || ws.layout == (LayoutKind::Columns { count: 0 })) {
        assert forall|id: WindowId|
            #![trigger ws.windows.contains(id)]
            ws.windows.contains(id) && !ws.is_full(id) && tileable(infos, id) implies exists|i: int|
            0 <= i < targets.len() && (#[trigger] targets[i]).id == id by {
            let k = choose|k: int| 0 <= k < ws.windows.len() && ws.windows[k] == id;
            ws.windows.lemma_filter_contains(p, k);
            let i = choose|i: int| 0 <= i < tiled.len() && tiled[i] == id;
            assert(targets[i].id == id);
        }
    }
}

/// A window on its tile lies on the tile, less the gap.
proof fn lemma_within_tile(
    ws: WorkspaceView,
    monitor: Rect,
    config: Config,
    infos: Seq<WindowInfo>,
    i: int,
    px: int,
    py: int,
)
    requires
        layout_ready(ws, monitor, config, infos),
        0 <= i < layout_targets(ws, monitor, config, infos).len(),
        tile_of(layout_targets(ws, monitor, config, infos)[i].to).covers(px, py),
    ensures
        workspace_tiles(ws, monitor, config, infos)[i].covers(px, py),
        workspace_tiles(ws, monitor, config, infos)[i].covers(px - config.gap, py - config.gap),
        workspace_tiles(ws, monitor, config, infos)[i].covers(px + config.gap, py + config.gap),
{
    let tiles = workspace_tiles(ws, monitor, config, infos);
    let area = padded_rect(monitor, config.padding);
    tiles_are_no_larger_than_screen(ws.layout, area, tiled_windows(ws, infos).len());
    let t = tiles[i];
    assert(inset_fits(tile_rect(t), config.gap));
    assert(tile_of(tile_rect(t)) == t);
}

/// Every placed window lies on the padded monitor area, at least a gap away from
/// its edges.
pub proof fn placed_windows_stay_on_screen(
    ws: WorkspaceView,
    monitor: Rect,
    config: Config,
    infos: Seq<WindowInfo>,
    i: int,
    px: int,
    py: int,
)
    requires
        layout_ready(ws, monitor, config, infos),
        ws.layout is CenterMain ==> monitor.width <= i32::MAX,
        0 <= i < layout_targets(ws, monitor, config, infos).len(),
        tile_of(layout_targets(ws, monitor, config, infos)[i].to).covers(px, py),
    ensures
        tile_of(padded_rect(monitor, config.padding)).covers(px, py),
        tile_of(padded_rect(monitor, config.padding)).covers(px - config.gap, py - config.gap),
        tile_of(padded_rect(monitor, config.padding)).covers(px + config.gap, py + config.gap),
{
    let area = padded_rect(monitor, config.padding);
    let tiles = workspace_tiles(ws, monitor, config, infos);
    lemma_within_tile(ws, monitor, config, infos, i, px, py);
    tiles_stay_on_screen(ws.layout, area, tiled_windows(ws, infos).len());
    assert(tiles[i].covers(px, py));
    assert(tiles[i].covers(px - config.gap, py - config.gap));
    assert(tiles[i].covers(px + config.gap, py + config.gap));
}

/// In the layouts that divide the screen no two placed windows overlap.
pub proof fn placed_windows_do_not_overlap(
    ws: WorkspaceView,
    monitor: Rect,
    config: Config,
    infos: Seq<WindowInfo>,
    i: int,
    j: int,
    px: int,
    py: int,
)
    requires
        layout_ready(ws, monitor, config, infos),
        ws.layout is Fibonacci || ws.layout is Bsp || ws.layout is CenterMain,
        ws.layout is CenterMain ==> monitor.width <= i32::MAX,
        0 <= i < layout_targets(ws, monitor, config, infos).len(),
        0 <= j < layout_targets(ws, monitor, config, infos).len(),
        tile_of(layout_targets(ws, monitor, config, infos)[i].to).covers(px, py),
        tile_of(layout_targets(ws, monitor, config, infos)[j].to).covers(px, py),
    ensures
        i == j,
{
    let area = padded_rect(monitor, config.padding);
    let tiles = workspace_tiles(ws, monitor, config, infos);
    let n = tiled_windows(ws, infos).len();
    one_tile_per_window(ws.layout, tile_of(area), n);
    dividing_layouts_divide(ws.layout, area, n);
    lemma_within_tile(ws, monitor, config, infos, i, px, py);
    lemma_within_tile(ws, monitor, config, infos, j, px, py);
    assert(tiles[i].covers(px, py) && tiles[j].covers(px, py));
}

/// A window that fills its monitor, or is minimised, shows no border; in a
/// monocle layout only the focused window does; and only the focused window is
/// painted in the active colour, where the two colours differ.
pub proof fn borders_mark_the_focused_window(
    ws: WorkspaceView,
    focused: Option<WindowId>,
    config: Config,
    w: WindowInfo,
)
    requires
        hex_color(config.border_active@) != hex_color(config.border_inactive@),
    ensures
        ws.is_full(w.id) || w.minimized ==> border_command(ws, focused, config, w) is HideBorder,
        ws.layout == LayoutKind::Monocle && focused != Some(w.id) ==> border_command(
            ws,
            focused,
            config,
            w,
        ) is HideBorder,
        border_command(ws, focused, config, w) matches Command::SetBorder { rgb, .. } && rgb
            == hex_color(config.border_active@) ==> focused == Some(w.id),
{
}

// ── Plain and animated layout ────────────────────────────────────────────────

/// Where a window that stood at `start` stands after some commands.
pub open spec fn place_after(cmds: Seq<Command>, id: WindowId, start: Rect) -> Rect
    decreases cmds.len(),
{
    if cmds.len() == 0 {
        start
    } else {
        match cmds.last() {
            Command::SetGeometry { id: x, rect } if x == id => rect,
            Command::EnterFullscreen { id: x, rect } if x == id => rect,
            _ => place_after(cmds.drop_last(), id, start),
        }
    }
}

/// Frames of an animation: each only moves some window that has a target.
pub open spec fn are_frames(frames: Seq<Command>, targets: Seq<Target>) -> bool {
    forall|i: int|
        0 <= i < frames.len() ==> #[trigger] frames[i] is SetGeometry && exists|k: int|
            0 <= k < targets.len() && (#[trigger] targets[k]).id == frames[i]->SetGeometry_id
}

proof fn lemma_place_join(a: Seq<Command>, b: Seq<Command>, id: WindowId, start: Rect)
    ensures
        place_after(a + b, id, start) == place_after(b, id, place_after(a, id, start)),
    decreases b.len(),
{
    if b.len() == 0 {
        assert(a + b =~= a);
    } else {
        assert((a + b).drop_last() =~= a + b.drop_last());
        assert((a + b).last() == b.last());
        lemma_place_join(a, b.drop_last(), id, start);
    }
}

/// Commands that move other windows only.
proof fn lemma_untouched(cmds: Seq<Command>, id: WindowId, start: Rect)
    requires
        forall|i: int|
            0 <= i < cmds.len() ==> match #[trigger] cmds[i] {
                Command::SetGeometry { id: x, .. } => x != id,
                Command::EnterFullscreen { id: x, .. } => x != id,
                _ => true,
            },
    ensures
        place_after(cmds, id, start) == start,
    decreases cmds.len(),
{
    if cmds.len() > 0 {
        assert(cmds[cmds.len() - 1] == cmds.last());
        assert forall|i: int| 0 <= i < cmds.len() - 1 implies match #[trigger] cmds.drop_last()[i] {
            Command::SetGeometry { id: x, .. } => x != id,
            Command::EnterFullscreen { id: x, .. } => x != id,
            _ => true,
        } by {
            assert(cmds.drop_last()[i] == cmds[i]);
        }
        lemma_untouched(cmds.drop_last(), id, start);
    }
}

/// A window that has a target stands there, wherever it came from.
proof fn lemma_placed(targets: Seq<Target>, id: WindowId, a: Rect, b: Rect)
    requires
        exists|k: int| 0 <= k < targets.len() && (#[trigger] targets[k]).id == id,
    ensures
        place_after(place_commands(targets), id, a) == place_after(place_commands(targets), id, b),
    decreases targets.len(),
{
    let cmds = place_commands(targets);
    let rest = targets.drop_last();
    assert(cmds.drop_last() =~= place_commands(rest));
    if targets.last().id != id {
        let k = choose|k: int| 0 <= k < targets.len() && (#[trigger] targets[k]).id == id;
        assert(rest[k].id == id);
        lemma_placed(rest, id, a, b);
    }
}

/// Fullscreen commands put each known fullscreen window on its whole monitor, in
/// whatever order they come.
proof fn lemma_full_place(
    ws: WorkspaceView,
    infos: Seq<WindowInfo>,
    cmds: Seq<Command>,
    id: WindowId,
    start: Rect,
)
    requires
        forall|i: int| 0 <= i < cmds.len() ==> is_full_command(ws, infos, #[trigger] cmds[i]),
    ensures
        place_after(cmds, id, start) == (if exists|i: int|
            0 <= i < cmds.len() && (#[trigger] cmds[i])->EnterFullscreen_id == id {
            info_of(infos, id)->0.full_rect
        } else {
            start
        }),
    decreases cmds.len(),
{
    let n = cmds.len() as int;
    if n > 0 {
        let rest = cmds.drop_last();
        assert forall|i: int| 0 <= i < rest.len() implies is_full_command(
            ws,
            infos,
            #[trigger] rest[i],
        ) by {
            assert(rest[i] == cmds[i]);
        }
        lemma_full_place(ws, infos, rest, id, start);
        assert(is_full_command(ws, infos, cmds[n - 1]));
        if cmds.last()->EnterFullscreen_id != id {
            if exists|i: int| 0 <= i < n && (#[trigger] cmds[i])->EnterFullscreen_id == id {
                let i = choose|i: int| 0 <= i < n && (#[trigger] cmds[i])->EnterFullscreen_id == id;
                assert(rest[i]->EnterFullscreen_id == id);
            }
            if exists|i: int|
                0 <= i < rest.len() && (#[trigger] rest[i])->EnterFullscreen_id == id {
                let i = choose|i: int|
                    0 <= i < rest.len() && (#[trigger] rest[i])->EnterFullscreen_id == id;
                assert(cmds[i]->EnterFullscreen_id == id);
            }
        }
    }
}

/// Two lists of the fullscreen commands of a workspace leave every window at the
/// same place.
proof fn lemma_full_alike(
    ws: WorkspaceView,
    infos: Seq<WindowInfo>,
    a: Seq<Command>,
    b: Seq<Command>,
    id: WindowId,
    start: Rect,
)
    requires
        full_commands(ws, infos, a),
        full_commands(ws, infos, b),
    ensures
        place_after(a, id, start) == place_after(b, id, start),
{
    assert forall|i: int| 0 <= i < a.len() implies is_full_command(ws, infos, #[trigger] a[i]) by {
        assert(a.contains(a[i]));
    }
    assert forall|i: int| 0 <= i < b.len() implies is_full_command(ws, infos, #[trigger] b[i]) by {
        assert(b.contains(b[i]));
    }
    lemma_full_place(ws, infos, a, id, start);
    lemma_full_place(ws, infos, b, id, start);
    if exists|i: int| 0 <= i < a.len() && (#[trigger] a[i])->EnterFullscreen_id == id {
        let i = choose|i: int| 0 <= i < a.len() && (#[trigger] a[i])->EnterFullscreen_id == id;
        assert(a.contains(a[i]));
        assert(b.contains(a[i]));
        let j = choose|j: int| 0 <= j < b.len() && b[j] == a[i];
        assert(b[j]->EnterFullscreen_id == id);
    }
    if exists|i: int| 0 <= i < b.len() && (#[trigger] b[i])->EnterFullscreen_id == id {
        let i = choose|i: int| 0 <= i < b.len() && (#[trigger] b[i])->EnterFullscreen_id == id;
        assert(b.contains(b[i]));
        assert(a.contains(b[i]));
        let j = choose|j: int| 0 <= j < a.len() && a[j] == b[i];
        assert(a[j]->EnterFullscreen_id == id);
    }
}

/// `plain` is what [`crate::manager::plan::apply_layout`] gives for `targets`.
pub open spec fn plain_layout(
    ws: WorkspaceView,
    infos: Seq<WindowInfo>,
    targets: Seq<Target>,
    plain: Seq<Command>,
) -> bool {
    &&& plain.len() >= targets.len()
    &&& plain.take(targets.len() as int) == place_commands(targets)
    &&& full_commands(ws, infos, plain.skip(targets.len() as int))
}

/// An animated layout leaves every window where the plain layout would, however
/// many frames there are and whatever they hold: the frames, then each target,
/// then the fullscreen windows.
pub proof fn animated_layout_ends_like_the_plain(
    ws: WorkspaceView,
    monitor: Rect,
    config: Config,
    infos: Seq<WindowInfo>,
    plain: Seq<Command>,
    frames: Seq<Command>,
    fullscreen: Seq<Command>,
    id: WindowId,
    start: Rect,
)
    requires
        plain_layout(ws, infos, layout_targets(ws, monitor, config, infos), plain),
        are_frames(frames, layout_targets(ws, monitor, config, infos)),
        full_commands(ws, infos, fullscreen),
    ensures
        ({
            let targets = layout_targets(ws, monitor, config, infos);
            place_after(frames + place_commands(targets) + fullscreen, id, start) == place_after(
                plain,
                id,
                start,
            )
        }),
{
    let targets = layout_targets(ws, monitor, config, infos);
    let places = place_commands(targets);
    let full = plain.skip(targets.len() as int);
    assert(plain =~= places + full);
    lemma_place_join(places, full, id, start);
    lemma_place_join(frames + places, fullscreen, id, start);
    lemma_place_join(frames, places, id, start);
    let moved = place_after(frames, id, start);
    if exists|k: int| 0 <= k < targets.len() && (#[trigger] targets[k]).id == id {
        lemma_placed(targets, id, moved, start);
    } else {
        lemma_untouched(frames, id, start);
    }
    lemma_full_alike(ws, infos, full, fullscreen, id, place_after(places, id, start));
}

/// Where the layout has no tiles, no window is moved but the fullscreen ones.
pub proof fn tileless_layouts_move_nothing(
    ws: WorkspaceView,
    monitor: Rect,
    config: Config,
    infos: Seq<WindowInfo>,
)
    requires
        tileless(ws.layout),
    ensures
        layout_targets(ws, monitor, config, infos).len() == 0,
{
}

} // verus!
