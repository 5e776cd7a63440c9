//! Platform-normalised events.
//!
//! Each backend translates its native event stream into [`Event`], so the
//! event loop stays platform-agnostic.

use crate::window::WindowId;
use vstd::prelude::*;

verus! {

/// Opaque identifier of a configured keybinding.
#[derive(Debug, Clone, Copy, PartialEq, Eq, Structural, Hash)]
pub struct KeybindingId(pub u32);

/// All events the manager core needs to react to.
#[derive(Debug, Clone, Copy, PartialEq, Eq, Structural)]
pub enum Event {
    /// A new window has appeared and should be managed.
    WindowCreated(WindowId),
    /// A window has been destroyed by the application or the system.
    WindowDestroyed(WindowId),
    /// A window has been given input focus.
    WindowFocused(WindowId),
    /// A window was moved or resized by the user (drag / manual resize).
    WindowMoved { id: WindowId },
    /// A window has a new size that it is to keep until the next layout.
    WindowResized { id: WindowId },
    /// A window's size was changed by something other than the user or the
    /// manager, such as an application going fullscreen.
    WindowSizeChanged { id: WindowId },
    /// A window was minimised or restored; either triggers a relayout.
    WindowMinimizeChanged { id: WindowId },
    /// The usable area of some monitor changed.
    WorkAreaChanged,
    /// A user-configured keybinding fired.
    Keybinding(KeybindingId),
    /// A clean-shutdown request.
    Quit,
}

} // verus!
