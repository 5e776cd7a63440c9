//! What the platform is asked to do.

use crate::window::{Rect, WindowId};
use vstd::prelude::*;

verus! {

/// One native call on one window.  A command for a window that the platform no
/// longer knows does nothing.
#[derive(Debug, Clone, Copy, PartialEq, Eq, Structural)]
pub enum Command {
    SetGeometry { id: WindowId, rect: Rect },
    EnterFullscreen { id: WindowId, rect: Rect },
    SetFloating { id: WindowId, floating: bool },
    SetTopmost { id: WindowId, topmost: bool },
    Show { id: WindowId },
    Hide { id: WindowId },
    Park { id: WindowId },
    Focus { id: WindowId },
    Close { id: WindowId },
    Raise { id: WindowId },
    SetAlpha { id: WindowId, alpha: u8 },
    ClearAlpha { id: WindowId },
    SetBorder { id: WindowId, rgb: u32, width: u32, radius: u32 },
    HideBorder { id: WindowId },
}

/// One step of the reaction to an event, performed in order.
#[derive(Debug, Clone, Copy, PartialEq, Eq, Structural)]
pub enum Step {
    /// Perform a command.
    Do(Command),
    /// Lay out a workspace on an area at once.
    Layout { ws: usize, area: Rect },
    /// Lay out a workspace on an area, easing each window into place.
    AnimatedLayout { ws: usize, area: Rect },
    /// Lay out two workspaces in one animation.
    AnimatedPair { first: usize, first_area: Rect, second: usize, second_area: Rect },
    /// Ease one window from one place to another.
    Slide { id: WindowId, from: Rect, to: Rect },
    /// Repaint the borders of a workspace, given which window has its focus.
    Borders { ws: usize, focused: Option<WindowId> },
    /// Fade the windows of one workspace out and those of another in.
    Crossfade { outgoing: usize, incoming: usize },
    /// Tell connected status bars about the new state.
    Broadcast,
    /// Pick and set the focus of a workspace that was just switched to.
    SettleFocus { ws: usize },
    /// Read the configuration again.
    ReloadConfig,
    /// Leave the event loop.
    Exit,
}

} // verus!
