//! What the manager reads of the windows at a given moment.

use crate::window::{Rect, WindowId};
use vstd::prelude::*;

verus! {

/// A snapshot of one window.
#[derive(Debug)]
pub struct WindowInfo {
    pub id: WindowId,
    pub title: String,
    pub geometry: Rect,
    /// Usable area of the monitor the window is on.
    pub work_rect: Rect,
    /// Full physical bounds of the monitor the window is on.
    pub full_rect: Rect,
    pub floating: bool,
    pub minimized: bool,
}

/// The snapshot of `id`: the first one listed.
pub open spec fn info_of(infos: Seq<WindowInfo>, id: WindowId) -> Option<WindowInfo>
    decreases infos.len(),
{
    if infos.len() == 0 {
        None
    } else if infos[0].id == id {
        Some(infos[0])
    } else {
        info_of(infos.skip(1), id)
    }
}

/// `id` is known and minimised.
pub open spec fn minimized(infos: Seq<WindowInfo>, id: WindowId) -> bool {
    info_of(infos, id) matches Some(w) && w.minimized
}

/// `id` is known and takes part in tiling: neither floating nor minimised.
pub open spec fn tileable(infos: Seq<WindowInfo>, id: WindowId) -> bool {
    info_of(infos, id) matches Some(w) && !w.floating && !w.minimized
}

/// The snapshot of `id`.
pub fn find_info(infos: &Vec<WindowInfo>, id: WindowId) -> (r: Option<&WindowInfo>)
    ensures
        match r {
            Some(w) => info_of(infos@, id) == Some(*w) && w.id == id,
            None => info_of(infos@, id) is None,
        },
{
    let mut i: usize = 0;
    assert(infos@.skip(0) =~= infos@);
    while i < infos.len()
        invariant
            i <= infos@.len(),
            info_of(infos@, id) == info_of(infos@.skip(i as int), id),
        decreases infos@.len() - i,
    {
        assert(infos@.skip(i as int)[0] == infos@[i as int]);
        if infos[i].id == id {
            return Some(&infos[i]);
        }
        assert(infos@.skip(i as int).skip(1) =~= infos@.skip(i + 1));
        i += 1;
    }
    None
}

/// Whether `id` is known and minimised.
pub fn is_minimized(infos: &Vec<WindowInfo>, id: WindowId) -> (r: bool)
    ensures
        r == minimized(infos@, id),
{
    match find_info(infos, id) {
        Some(w) => w.minimized,
        None => false,
    }
}

/// Whether `id` is known and takes part in tiling.
pub fn is_tileable(infos: &Vec<WindowInfo>, id: WindowId) -> (r: bool)
    ensures
        r == tileable(infos@, id),
{
    match find_info(infos, id) {
        Some(w) => !w.floating && !w.minimized,
        None => false,
    }
}

} // verus!
