//! What the backend remembers of a window.

use crate::error::Error;
use crate::window::{Rect, Window, WindowId};
use vstd::prelude::*;
use vstd::string::*;

verus! {

/// A managed native window.
#[derive(Debug)]
pub struct WindowsWindow {
    pub id: WindowId,
    /// Native handle.
    pub hwnd: isize,
    pub title: String,
    pub geometry: Rect,
    pub floating: bool,
    /// Whether the window is floating or fullscreen, and so kept above the
    /// others together with its border.
    pub is_topmost: bool,
    /// Whether the manager itself took the window off screen.  A window that is
    /// reported as shown meanwhile is not taken for a new one.
    pub wm_hidden: bool,
    /// Native handle of the border overlay; zero while there is none.
    pub overlay_hwnd: isize,
    /// Border width of the overlay, in pixels.
    pub border_width: u32,
    /// Corner radius of the overlay, in pixels.
    pub border_radius: u32,
}

impl Window for WindowsWindow {
    open spec fn number(&self) -> WindowId {
        self.id
    }

    fn id(&self) -> (r: WindowId)
        ensures
            r == self.id,
    {
        self.id
    }

    fn title(&self) -> (r: &str)
        ensures
            r@ == self.title@,
    {
        self.title.as_str()
    }

    fn geometry(&self) -> (r: Rect)
        ensures
            r == self.geometry,
    {
        self.geometry
    }

    fn set_geometry(&mut self, rect: Rect) -> (r: Result<(), Error>)
        ensures
            r is Ok,
            *final(self) == (WindowsWindow { geometry: rect, ..*old(self) }),
    {
        self.geometry = rect;
        Ok(())
    }

    fn focus(&mut self) -> (r: Result<(), Error>)
        ensures
            r is Ok,
            *final(self) == *old(self),
    {
        Ok(())
    }

    fn close(&mut self) -> (r: Result<(), Error>)
        ensures
            r is Ok,
            *final(self) == *old(self),
    {
        Ok(())
    }

    fn is_floating(&self) -> (r: bool)
        ensures
            r == self.floating,
    {
        self.floating
    }

    /// A floating window is kept above the others.
    fn set_floating(&mut self, floating: bool)
        ensures
            *final(self) == (WindowsWindow { floating, is_topmost: floating, ..*old(self) }),
    {
        self.floating = floating;
        self.is_topmost = floating;
    }

    fn set_topmost(&mut self, topmost: bool) -> (r: Result<(), Error>)
        ensures
            r is Ok,
            *final(self) == (WindowsWindow { is_topmost: topmost, ..*old(self) }),
    {
        self.is_topmost = topmost;
        Ok(())
    }

    /// A fullscreen window is kept above the others.
    fn enter_fullscreen_geometry(&mut self, rect: Rect) -> (r: Result<(), Error>)
        ensures
            r is Ok,
            *final(self) == (WindowsWindow { geometry: rect, is_topmost: true, ..*old(self) }),
    {
        self.is_topmost = true;
        self.geometry = rect;
        Ok(())
    }

    fn hide_window(&mut self) -> (r: Result<(), Error>)
        ensures
            r is Ok,
            *final(self) == (WindowsWindow { wm_hidden: true, ..*old(self) }),
    {
        self.wm_hidden = true;
        Ok(())
    }

    fn show(&mut self) -> (r: Result<(), Error>)
        ensures
            r is Ok,
            *final(self) == (WindowsWindow { wm_hidden: false, ..*old(self) }),
    {
        self.wm_hidden = false;
        Ok(())
    }

    /// A parked window counts as hidden, though it keeps its taskbar entry.
    fn park(&mut self) -> (r: Result<(), Error>)
        ensures
            r is Ok,
            *final(self) == (WindowsWindow { wm_hidden: true, ..*old(self) }),
    {
        self.wm_hidden = true;
        Ok(())
    }

    fn set_border_overlay(&mut self, rgb: u32, width: u32, radius: u32) -> (r: Result<(), Error>)
        ensures
            r is Ok,
            *final(self) == (WindowsWindow {
                border_width: width,
                border_radius: radius,
                ..*old(self)
            }),
    {
        self.border_width = width;
        self.border_radius = radius;
        Ok(())
    }
}

} // verus!
