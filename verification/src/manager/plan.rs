//! Where windows go, given fresh facts about them.

use crate::config::Config;
use crate::geometry::{
    apply_padding, inset, inset_fits, inset_is_fit, inset_rect, padded_rect, padding_fits,
    padding_is_fit,
};
use crate::layout::{compute, layout_fits, layout_tiles, slot_tiles, tile_of, Tile};
use crate::layout_fit::layout_is_fit;
use crate::layout_laws::{
    corners_stay_on_screen, layouts_fit_ordinary_screens, one_tile_per_window,
};
use crate::manager::info::{find_info, info_of, is_tileable, tileable, WindowInfo};
use crate::manager::step::Command;
use crate::window::{Rect, WindowId};
use crate::workspace::{Workspace, WorkspaceView};
use vstd::prelude::*;

verus! {

// ── Layout ───────────────────────────────────────────────────────────────────

/// Where a window stands and where its layout puts it.
#[derive(Debug, Clone, Copy, PartialEq, Eq, Structural)]
pub struct Target {
    pub id: WindowId,
    pub from: Rect,
    pub to: Rect,
}

/// Which windows of a workspace take part in tiling: those that are not
/// fullscreen, floating, minimised or unknown.
pub open spec fn is_tiled(ws: WorkspaceView, infos: Seq<WindowInfo>) -> spec_fn(WindowId) -> bool {
    |id: WindowId| !ws.is_full(id) && tileable(infos, id)
}

/// The windows of a workspace that take part in tiling, in layout order.
pub open spec fn tiled_windows(ws: WorkspaceView, infos: Seq<WindowInfo>) -> Seq<WindowId> {
    ws.windows.filter(is_tiled(ws, infos))
}

/// The tiles for the windows of a workspace on the padded monitor area.
pub open spec fn workspace_tiles(
    ws: WorkspaceView,
    monitor: Rect,
    config: Config,
    infos: Seq<WindowInfo>,
) -> Seq<Tile> {
    layout_tiles(
        ws.layout,
        tile_of(padded_rect(monitor, config.padding)),
        tiled_windows(ws, infos).len(),
    )
}

/// A tile as a screen rectangle.
pub open spec fn tile_rect(t: Tile) -> Rect {
    Rect { x: t.x as i32, y: t.y as i32, width: t.w as u32, height: t.h as u32 }
}

/// For each tile: its window, where that stands, and the tile less the gap.
pub open spec fn layout_targets(
    ws: WorkspaceView,
    monitor: Rect,
    config: Config,
    infos: Seq<WindowInfo>,
) -> Seq<Target> {
    let tiled = tiled_windows(ws, infos);
    let tiles = workspace_tiles(ws, monitor, config, infos);
    Seq::new(
        tiles.len(),
        |i: int|
            Target {
                id: tiled[i],
                from: info_of(infos, tiled[i])->0.geometry,
                to: inset_rect(tile_rect(tiles[i]), config.gap),
            },
    )
}

/// The layout of a workspace can be computed in 32-bit coordinates.
pub open spec fn layout_ready(
    ws: WorkspaceView,
    monitor: Rect,
    config: Config,
    infos: Seq<WindowInfo>,
) -> bool {
    let tiles = workspace_tiles(ws, monitor, config, infos);
    &&& padding_fits(monitor, config.padding)
    &&& layout_fits(
        ws.layout,
        tile_of(padded_rect(monitor, config.padding)),
        tiled_windows(ws, infos).len(),
    )
    &&& forall|i: int|
        0 <= i < tiles.len() ==> inset_fits(tile_rect(#[trigger] tiles[i]), config.gap)
}

/// The commands that put each window on its target.
pub open spec fn place_commands(targets: Seq<Target>) -> Seq<Command> {
    Seq::new(
        targets.len(),
        |i: int| Command::SetGeometry { id: targets[i].id, rect: targets[i].to },
    )
}

/// `c` puts a known fullscreen window of the workspace on its whole monitor.
pub open spec fn is_full_command(
    ws: WorkspaceView,
    infos: Seq<WindowInfo>,
    c: Command,
) -> bool {
    c matches Command::EnterFullscreen { id, rect } && ws.is_full(id) && (info_of(
        infos,
        id,
    ) matches Some(w) && rect == w.full_rect)
}

/// `cmds` holds exactly the commands that put each known fullscreen window on
/// its whole monitor, each once.
pub open spec fn full_commands(
    ws: WorkspaceView,
    infos: Seq<WindowInfo>,
    cmds: Seq<Command>,
) -> bool {
    &&& cmds.no_duplicates()
    &&& forall|c: Command| #[trigger] cmds.contains(c) <==> is_full_command(ws, infos, c)
}

fn tiled(ws: &Workspace, infos: &Vec<WindowInfo>) -> (r: Vec<WindowId>)
    ensures
        r@ == tiled_windows(ws@, infos@),
        forall|i: int|
            0 <= i < r@.len() ==> tileable(infos@, #[trigger] r@[i]),
{
    let mut r: Vec<WindowId> = Vec::new();
    let mut i: usize = 0;
    proof {
        reveal(Seq::filter);
    }
    while i < ws.windows.len()
        invariant
            i <= ws.windows@.len(),
            r@ == ws.windows@.take(i as int).filter(is_tiled(ws@, infos@)),
            forall|j: int| 0 <= j < r@.len() ==> tileable(infos@, #[trigger] r@[j]),
        decreases ws.windows@.len() - i,
    {
        proof {
            reveal(Seq::filter);
            assert(ws.windows@.take(i + 1).drop_last() =~= ws.windows@.take(i as int));
            assert(ws.windows@.take(i + 1).last() == ws.windows@[i as int]);
        }
        let id = ws.windows[i];
        if !ws.is_fullscreen(id) && is_tileable(infos, id) {
            r.push(id);
        }
        i += 1;
    }
    assert(ws.windows@.take(i as int) =~= ws.windows@);
    r
}

/// For every tiled window of a workspace: where it stands and where it goes.
pub fn compute_layout_targets(
    ws: &Workspace,
    monitor: Rect,
    config: &Config,
    infos: &Vec<WindowInfo>,
) -> (r: Vec<Target>)
    requires
        layout_ready(ws@, monitor, *config, infos@),
    ensures
        r@ == layout_targets(ws@, monitor, *config, infos@),
        r@.len() <= tiled_windows(ws@, infos@).len(),
{
    let ids = tiled(ws, infos);
    let area = apply_padding(monitor, config.padding);
    let slots = compute(&ws.layout, area, ids.len());
    let ghost tiles = workspace_tiles(ws@, monitor, *config, infos@);
    let ghost all = layout_targets(ws@, monitor, *config, infos@);
    proof {
        one_tile_per_window(ws.layout, tile_of(area), ids@.len());
        assert(slots@.len() == tiles.len());
    }
    let mut r: Vec<Target> = Vec::new();
    let mut i: usize = 0;
    while i < slots.len()
        invariant
            i <= slots@.len(),
            slots@.len() == tiles.len(),
            slots@.len() <= ids@.len(),
            ids@ == tiled_windows(ws@, infos@),
            tiles == workspace_tiles(ws@, monitor, *config, infos@),
            all == layout_targets(ws@, monitor, *config, infos@),
            slot_tiles(slots@) == tiles,
            layout_ready(ws@, monitor, *config, infos@),
            forall|j: int| 0 <= j < ids@.len() ==> tileable(infos@, #[trigger] ids@[j]),
            r@ == all.take(i as int),
        decreases slots@.len() - i,
    {
        let id = ids[i];
        assert(tileable(infos@, ids@[i as int]));
        assert(slot_tiles(slots@)[i as int] == tile_of(slots@[i as int].rect));
        assert(tile_rect(tiles[i as int]) == slots@[i as int].rect);
        let from = match find_info(infos, id) {
            Some(w) => w.geometry,
            None => area,
        };
        r.push(Target { id, from, to: inset(slots[i].rect, config.gap) });
        assert(all.take(i + 1) =~= all.take(i as int).push(all[i as int]));
        i += 1;
    }
    assert(all.take(i as int) =~= all);
    r
}

/// The commands that put each known fullscreen window of a workspace on its
/// whole monitor, in no particular order.
pub fn fullscreen_commands(ws: &Workspace, infos: &Vec<WindowInfo>) -> (r: Vec<Command>)
    ensures
        full_commands(ws@, infos@, r@),
{
    let ids = ws.fullscreen_windows();
    let mut r: Vec<Command> = Vec::new();
    let mut i: usize = 0;
    while i < ids.len()
        invariant
            i <= ids@.len(),
            ids@.no_duplicates(),
            forall|id: WindowId| #[trigger] ids@.contains(id) <==> ws@.is_full(id),
            r@.no_duplicates(),
            forall|c: Command| #[trigger]
                r@.contains(c) <==> is_full_command(ws@, infos@, c) && ids@.take(i as int).contains(
                    c->EnterFullscreen_id,
                ),
        decreases ids@.len() - i,
    {
        let id = ids[i];
        let ghost before = r@;
        assert(ids@.contains(id));
        match find_info(infos, id) {
            Some(w) => {
                r.push(Command::EnterFullscreen { id, rect: w.full_rect });
            },
            None => {},
        }
        proof {
            let c0 = Command::EnterFullscreen { id, rect: info_of(infos@, id)->0.full_rect };
            let seen = ids@.take(i as int);
            let now = ids@.take(i + 1);
            assert(now =~= seen.push(id));
            if seen.contains(id) {
                let k = choose|k: int| 0 <= k < seen.len() && seen[k] == id;
                assert(ids@[k] == ids@[i as int]);
            }
            assert forall|j: WindowId| #[trigger] now.contains(j) <==> seen.contains(j) || j == id by {
                if seen.contains(j) {
                    let k = choose|k: int| 0 <= k < seen.len() && seen[k] == j;
                    assert(now[k] == j);
                }
                assert(now[i as int] == id);
            }
            assert forall|c: Command| #[trigger] r@.contains(c) <==> is_full_command(ws@, infos@, c)
                && now.contains(c->EnterFullscreen_id) by {
                if info_of(infos@, id) is Some {
                    assert(r@ =~= before.push(c0));
                    assert(r@[before.len() as int] == c0);
                    if before.contains(c) {
                        let k = choose|k: int| 0 <= k < before.len() && before[k] == c;
                        assert(r@[k] == c);
                    }
                }
            }
            if info_of(infos@, id) is Some {
                assert(!before.contains(c0));
            }
        }
        i += 1;
    }
    assert(ids@.take(i as int) =~= ids@);
    r
}

/// Tile the windows of a workspace on a monitor's usable area, then put its
/// fullscreen windows on their whole monitors.
///
/// The monitor area is the one that the workspace is assigned to, not where its
/// windows happen to stand.
pub fn apply_layout(
    ws: &Workspace,
    monitor: Rect,
    config: &Config,
    infos: &Vec<WindowInfo>,
) -> (r: Vec<Command>)
    requires
        layout_ready(ws@, monitor, *config, infos@),
    ensures
        r@.len() >= layout_targets(ws@, monitor, *config, infos@).len(),
        r@.take(layout_targets(ws@, monitor, *config, infos@).len() as int) == place_commands(
            layout_targets(ws@, monitor, *config, infos@),
        ),
        full_commands(
            ws@,
            infos@,
            r@.skip(layout_targets(ws@, monitor, *config, infos@).len() as int),
        ),
{
    let targets = compute_layout_targets(ws, monitor, config, infos);
    let mut r: Vec<Command> = Vec::new();
    let ghost places = place_commands(targets@);
    let mut i: usize = 0;
    while i < targets.len()
        invariant
            i <= targets@.len(),
            places == place_commands(targets@),
            r@ == places.take(i as int),
        decreases targets@.len() - i,
    {
        r.push(Command::SetGeometry { id: targets[i].id, rect: targets[i].to });
        assert(places.take(i + 1) =~= places.take(i as int).push(places[i as int]));
        i += 1;
    }
    assert(places.take(i as int) =~= places);
    let mut full = fullscreen_commands(ws, infos);
    let ghost tail = full@;
    r.append(&mut full);
    assert(r@ =~= places + tail);
    assert(r@.take(places.len() as int) =~= places);
    assert(r@.skip(places.len() as int) =~= tail);
    r
}

/// A layout that is reached by easing: where each tiled window moves, and the
/// commands for the fullscreen windows afterwards.
#[derive(Debug)]
pub struct AnimatedLayout {
    pub targets: Vec<Target>,
    pub fullscreen: Vec<Command>,
}

/// Like [`apply_layout`], for windows that are eased into place.  A tiled window
/// without a tile stays where it is.
pub fn apply_layout_animated(
    ws: &Workspace,
    monitor: Rect,
    config: &Config,
    infos: &Vec<WindowInfo>,
) -> (r: AnimatedLayout)
    requires
        layout_ready(ws@, monitor, *config, infos@),
    ensures
        r.targets@ == layout_targets(ws@, monitor, *config, infos@),
        full_commands(ws@, infos@, r.fullscreen@),
{
    AnimatedLayout {
        targets: compute_layout_targets(ws, monitor, config, infos),
        fullscreen: fullscreen_commands(ws, infos),
    }
}

/// Whether the layout of a workspace can be computed in 32-bit coordinates.
pub fn layout_is_ready(
    ws: &Workspace,
    monitor: Rect,
    config: &Config,
    infos: &Vec<WindowInfo>,
) -> (r: bool)
    ensures
        r == layout_ready(ws@, monitor, *config, infos@),
{
    let n = tiled(ws, infos).len();
    if !padding_is_fit(monitor, config.padding) {
        return false;
    }
    let area = apply_padding(monitor, config.padding);
    if !layout_is_fit(&ws.layout, area, n) {
        return false;
    }
    let slots = compute(&ws.layout, area, n);
    let ghost tiles = workspace_tiles(ws@, monitor, *config, infos@);
    let mut i: usize = 0;
    while i < slots.len()
        invariant
            i <= slots@.len(),
            slot_tiles(slots@) == tiles,
            tiles == workspace_tiles(ws@, monitor, *config, infos@),
            forall|j: int|
                0 <= j < i ==> inset_fits(tile_rect(#[trigger] tiles[j]), config.gap),
        decreases slots@.len() - i,
    {
        assert(slot_tiles(slots@)[i as int] == tile_of(slots@[i as int].rect));
        assert(tile_rect(tiles[i as int]) == slots@[i as int].rect);
        if !inset_is_fit(slots[i].rect, config.gap) {
            return false;
        }
        i += 1;
    }
    true
}

/// Whenever the padded monitor area together with the gap lies within 32-bit
/// coordinates, the layout of a workspace can be computed.
pub proof fn ordinary_layouts_are_ready(
    ws: WorkspaceView,
    monitor: Rect,
    config: Config,
    infos: Seq<WindowInfo>,
)
    requires
        ordinary_layout(ws, monitor, config, infos),
    ensures
        layout_ready(ws, monitor, config, infos),
{
    let area = padded_rect(monitor, config.padding);
    let count = tiled_windows(ws, infos).len();
    layouts_fit_ordinary_screens(ws.layout, area, count);
    corners_stay_on_screen(ws.layout, area, count);
}

/// The padded monitor area together with the gap lies within 32-bit
/// coordinates.
pub open spec fn ordinary_layout(
    ws: WorkspaceView,
    monitor: Rect,
    config: Config,
    infos: Seq<WindowInfo>,
) -> bool {
    let p = config.padding;
    &&& tiled_windows(ws, infos).len() <= u32::MAX
    &&& p.left <= i32::MAX && p.top <= i32::MAX && p.right <= i32::MAX && p.bottom <= i32::MAX
    &&& monitor.width <= i32::MAX && monitor.height <= i32::MAX && config.gap <= i32::MAX
    &&& monitor.x + p.left + monitor.width + config.gap <= i32::MAX
    &&& monitor.y + p.top + monitor.height + config.gap <= i32::MAX
}

} // verus!
