//! The [`Backend`] trait: platform-specific behaviour behind one interface.

use crate::error::Error;
use crate::event::Event;
use crate::window::{Rect, Window, WindowId};
use vstd::prelude::*;

verus! {

/// Contract every platform backend must satisfy.
///
/// The event loop owns the backend exclusively; `Send` is required so that it
/// can be moved to a dedicated event thread.
pub trait Backend: Sized + Send + 'static {
    /// The concrete window type this backend manages.
    type W: Window;

    /// Immutable views of all currently managed windows.
    fn windows(&self) -> Vec<&Self::W>;

    /// A mutable reference to a window by id.
    fn window_mut(&mut self, id: WindowId) -> Option<&mut Self::W>;

    /// Block until the next platform event arrives.
    fn next_event(&mut self) -> Result<Event, Error>;

    /// Flush buffered changes to the display server.
    fn flush(&mut self) -> Result<(), Error>;

    /// The usable tiling area of the primary monitor.
    fn monitor_rect(&self) -> Rect;

    /// The usable tiling area of the monitor that contains `id`.
    fn monitor_rect_for_window(&self, id: WindowId) -> (r: Rect)
        default_ensures
            call_ensures(Self::monitor_rect, (self,), r),
    {
        self.monitor_rect()
    }

    /// The full physical bounds of the primary monitor.
    fn monitor_full_rect(&self) -> (r: Rect)
        default_ensures
            call_ensures(Self::monitor_rect, (self,), r),
    {
        self.monitor_rect()
    }

    /// The full physical bounds of the monitor that contains `id`.
    fn monitor_full_rect_for_window(&self, id: WindowId) -> (r: Rect)
        default_ensures
            call_ensures(Self::monitor_full_rect, (self,), r),
    {
        self.monitor_full_rect()
    }

    /// The usable tiling areas of all monitors, left to right.
    fn monitor_rects(&self) -> (r: Vec<Rect>)
        default_ensures
            r@.len() == 1,
            call_ensures(Self::monitor_rect, (self,), r@[0]),
    {
        let mut rects: Vec<Rect> = Vec::new();
        rects.push(self.monitor_rect());
        rects
    }

    /// Broadcast workspace state to connected status bars; `json` ends with a
    /// line feed.
    fn broadcast_state(&mut self, json: &str)
        default_ensures
            *final(self) == *old(self),
    {
    }

    /// Whether the host system has animations enabled.
    fn system_animations_enabled(&self) -> (r: bool)
        default_ensures
            r,
    {
        true
    }
}

} // verus!
