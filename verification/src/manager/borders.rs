//! How the borders of a workspace's windows look.

use crate::config::Config;
use crate::geometry::{as_i32, covering_fits, covers_rect, rect_covers};
use crate::layout::LayoutKind;
use crate::manager::info::{find_info, info_of, WindowInfo};
use crate::manager::step::Command;
use crate::text::{chars_of, parse_number, parse_unsigned};
use crate::window::WindowId;
use crate::workspace::{Workspace, WorkspaceView};
use vstd::prelude::*;

verus! {

/// `s` without its leading `#` characters.
pub open spec fn without_hashes(s: Seq<char>) -> Seq<char>
    decreases s.len(),
{
    if s.len() > 0 && s[0] == '#' {
        without_hashes(s.skip(1))
    } else {
        s
    }
}

/// The colour that a text such as `#RRGGBB` names; grey where it names none.
pub open spec fn hex_color(s: Seq<char>) -> u32 {
    match parse_unsigned(without_hashes(s), 16, u32::MAX as nat) {
        Some(v) => v as u32,
        None => 0x88_88_88,
    }
}

/// The colour that a text such as `#RRGGBB` names; grey where it names none.
pub fn parse_hex_color(s: &str) -> (r: u32)
    ensures
        r == hex_color(s@),
{
    let cs = chars_of(s);
    let mut i: usize = 0;
    assert(cs@.skip(0) =~= cs@);
    while i < cs.len() && cs[i] == '#'
        invariant
            i <= cs@.len(),
            cs@ == s@,
            without_hashes(s@) == without_hashes(cs@.skip(i as int)),
        decreases cs@.len() - i,
    {
        assert(cs@.skip(i as int).skip(1) =~= cs@.skip(i + 1));
        i += 1;
    }
    let mut digits: Vec<char> = Vec::new();
    let ghost rest = cs@.skip(i as int);
    let mut j: usize = i;
    while j < cs.len()
        invariant
            i <= j <= cs@.len(),
            rest == cs@.skip(i as int),
            digits@ == rest.take(j - i),
        decreases cs@.len() - j,
    {
        digits.push(cs[j]);
        assert(rest.take(j - i + 1) =~= rest.take(j - i).push(rest[j - i]));
        j += 1;
    }
    assert(rest.take(j - i) =~= rest);
    match parse_number(&digits, 16, u32::MAX) {
        Some(v) => v,
        None => 0x88_88_88,
    }
}

/// What a workspace's border of one window should be.  A window that fills its
/// whole monitor, or is minimised, has none; in a monocle layout only the
/// focused window has one; the focused window's is in the active colour.
pub open spec fn border_command(
    ws: WorkspaceView,
    focused: Option<WindowId>,
    config: Config,
    w: WindowInfo,
) -> Command {
    let has_focus = focused == Some(w.id);
    if ws.is_full(w.id) || w.minimized || covers_rect(w.geometry, w.full_rect) || (ws.layout
        == LayoutKind::Monocle && !has_focus) {
        Command::HideBorder { id: w.id }
    } else {
        Command::SetBorder {
            id: w.id,
            rgb: hex_color(
                if has_focus {
                    config.border_active@
                } else {
                    config.border_inactive@
                },
            ),
            width: config.border_width,
            radius: config.border_radius,
        }
    }
}

/// One border command per known window among `ids`, in order.
pub open spec fn border_commands(
    ws: WorkspaceView,
    ids: Seq<WindowId>,
    focused: Option<WindowId>,
    config: Config,
    infos: Seq<WindowInfo>,
) -> Seq<Command>
    decreases ids.len(),
{
    if ids.len() == 0 {
        seq![]
    } else {
        let before = border_commands(ws, ids.drop_last(), focused, config, infos);
        match info_of(infos, ids.last()) {
            Some(w) => before.push(border_command(ws, focused, config, w)),
            None => before,
        }
    }
}

/// Whether each known window fills its monitor can be computed.
pub open spec fn borders_ready(ids: Seq<WindowId>, infos: Seq<WindowInfo>) -> bool {
    forall|i: int|
        0 <= i < ids.len() ==> (info_of(infos, #[trigger] ids[i]) matches Some(w)
            ==> covering_fits(w.geometry, w.full_rect))
}

/// Repaint the borders of a workspace's windows.
pub fn update_borders(
    ws: &Workspace,
    focused: Option<WindowId>,
    config: &Config,
    infos: &Vec<WindowInfo>,
) -> (r: Vec<Command>)
    requires
        borders_ready(ws@.windows, infos@),
    ensures
        r@ == border_commands(ws@, ws@.windows, focused, *config, infos@),
{
    let active = parse_hex_color(config.border_active.as_str());
    let inactive = parse_hex_color(config.border_inactive.as_str());
    let monocle = ws.layout == LayoutKind::Monocle;
    let mut r: Vec<Command> = Vec::new();
    let mut i: usize = 0;
    while i < ws.windows.len()
        invariant
            i <= ws.windows@.len(),
            borders_ready(ws@.windows, infos@),
            active == hex_color(config.border_active@),
            inactive == hex_color(config.border_inactive@),
            monocle == (ws@.layout == LayoutKind::Monocle),
            r@ == border_commands(ws@, ws@.windows.take(i as int), focused, *config, infos@),
        decreases ws.windows@.len() - i,
    {
        let id = ws.windows[i];
        assert(ws@.windows.take(i + 1).drop_last() =~= ws@.windows.take(i as int));
        assert(ws@.windows.take(i + 1).last() == id);
        assert(ws@.windows[i as int] == id);
        match find_info(infos, id) {
            Some(w) => {
                let has_focus = focused == Some(id);
                let fills = rect_covers(w.geometry, w.full_rect);
                if ws.is_fullscreen(id) || w.minimized || fills || (monocle && !has_focus) {
                    r.push(Command::HideBorder { id });
                } else {
                    let rgb = if has_focus {
                        active
                    } else {
                        inactive
                    };
                    r.push(
                        Command::SetBorder {
                            id,
                            rgb,
                            width: config.border_width,
                            radius: config.border_radius,
                        },
                    );
                }
            },
            None => {},
        }
        i += 1;
    }
    assert(ws@.windows.take(i as int) =~= ws@.windows);
    r
}

/// Whether the tests of [`update_borders`] can be computed.
pub fn borders_are_ready(ws: &Workspace, infos: &Vec<WindowInfo>) -> (r: bool)
    ensures
        r == borders_ready(ws@.windows, infos@),
{
    let mut i: usize = 0;
    while i < ws.windows.len()
        invariant
            i <= ws.windows@.len(),
            borders_ready(ws@.windows.take(i as int), infos@),
        decreases ws.windows@.len() - i,
    {
        let ghost seen = ws@.windows.take(i as int);
        let ghost now = ws@.windows.take(i + 1);
        let id = ws.windows[i];
        assert(now =~= seen.push(id));
        assert(ws@.windows[i as int] == id);
        match find_info(infos, id) {
            Some(w) => {
                if !covering_is_computable(w) {
                    return false;
                }
            },
            None => {},
        }
        assert(borders_ready(now, infos@)) by {
            assert forall|k: int| 0 <= k < now.len() implies (info_of(
                infos@,
                #[trigger] now[k],
            ) matches Some(w) ==> covering_fits(w.geometry, w.full_rect)) by {
                if k < i {
                    assert(seen[k] == now[k]);
                }
            }
        }
        i += 1;
    }
    assert(ws@.windows.take(i as int) =~= ws@.windows);
    true
}

fn covering_is_computable(w: &WindowInfo) -> (r: bool)
    ensures
        r == covering_fits(w.geometry, w.full_rect),
{
    let (g, f) = (w.geometry, w.full_rect);
    if !(g.x <= f.x && g.y <= f.y) {
        return true;
    }
    let right = g.x as i64 + as_i32(g.width) as i64;
    let full_right = f.x as i64 + as_i32(f.width) as i64;
    let bottom = g.y as i64 + as_i32(g.height) as i64;
    let full_bottom = f.y as i64 + as_i32(f.height) as i64;
    let fits = |v: i64| -> (b: bool)
        ensures
            b == (i32::MIN <= v <= i32::MAX),
        { -0x8000_0000 <= v && v <= 0x7fff_ffff };
    fits(right) && fits(full_right) && (right < full_right || (fits(bottom) && fits(full_bottom)))
}

} // verus!
