//! Compositor-side window list.

use crate::backend::Backend;
use crate::error::{is_backend_error, Error};
use crate::event::Event;
use crate::hotkey::BindingMap;
use crate::window::{first_window, index_of_window, window_refs, Rect, Window, WindowId};
use vstd::prelude::*;
use vstd::string::*;

verus! {

/// A client surface.
#[derive(Debug)]
pub struct WaylandWindow {
    pub id: WindowId,
    pub title: String,
    pub geometry: Rect,
    pub floating: bool,
}

impl Window for WaylandWindow {
    open spec fn number(&self) -> WindowId {
        self.id
    }

    fn id(&self) -> (r: WindowId)
        ensures
            r == self.id,
    {
        self.id
    }

    fn title(&self) -> (r: &str)
        ensures
            r@ == self.title@,
    {
        self.title.as_str()
    }

    fn geometry(&self) -> (r: Rect)
        ensures
            r == self.geometry,
    {
        self.geometry
    }

    fn set_geometry(&mut self, rect: Rect) -> (r: Result<(), Error>)
        ensures
            r is Ok,
            *final(self) == (WaylandWindow { geometry: rect, ..*old(self) }),
    {
        self.geometry = rect;
        Ok(())
    }

    fn focus(&mut self) -> (r: Result<(), Error>)
        ensures
            r is Ok,
            *final(self) == *old(self),
    {
        Ok(())
    }

    fn close(&mut self) -> (r: Result<(), Error>)
        ensures
            r is Ok,
            *final(self) == *old(self),
    {
        Ok(())
    }

    fn is_floating(&self) -> (r: bool)
        ensures
            r == self.floating,
    {
        self.floating
    }

    fn set_floating(&mut self, floating: bool)
        ensures
            *final(self) == (WaylandWindow { floating, ..*old(self) }),
    {
        self.floating = floating;
    }

    fn hide_window(&mut self) -> (r: Result<(), Error>)
        ensures
            r is Ok,
            *final(self) == *old(self),
    {
        Ok(())
    }

    fn show(&mut self) -> (r: Result<(), Error>)
        ensures
            r is Ok,
            *final(self) == *old(self),
    {
        Ok(())
    }

    fn park(&mut self) -> (r: Result<(), Error>)
        ensures
            r is Ok,
            *final(self) == *old(self),
    {
        self.hide_window()
    }

    fn enter_fullscreen_geometry(&mut self, rect: Rect) -> (r: Result<(), Error>)
        ensures
            r is Ok,
            *final(self) == (WaylandWindow { geometry: rect, ..*old(self) }),
    {
        self.set_geometry(rect)
    }
}

/// The compositor's state.
pub struct WaylandCompositor {
    pub windows: Vec<WaylandWindow>,
    pub bindings: BindingMap,
}

impl WaylandCompositor {
    pub fn new(bindings: BindingMap) -> (r: Result<Self, Error>)
        ensures
            r matches Ok(c) && c.windows@.len() == 0 && c.bindings == bindings,
    {
        Ok(Self { windows: Vec::new(), bindings })
    }
}

impl Backend for WaylandCompositor {
    type W = WaylandWindow;

    fn windows(&self) -> (r: Vec<&WaylandWindow>)
        ensures
            r@.len() == self.windows@.len(),
            forall|i: int| 0 <= i < r@.len() ==> *(#[trigger] r@[i]) == self.windows@[i],
    {
        window_refs(&self.windows)
    }

    fn window_mut(&mut self, id: WindowId) -> (r: Option<&mut WaylandWindow>)
        ensures
            match r {
                Some(w) => exists|i: int|
                    #[trigger] first_window(old(self).windows@, id, i) && *w == old(
                        self,
                    ).windows@[i] && final(self).windows@ == old(self).windows@.update(
                        i,
                        *final(w),
                    ),
                None => final(self).windows@ == old(self).windows@ && forall|i: int|
                    0 <= i < old(self).windows@.len() ==> (#[trigger] old(self).windows@[i]).id
                        != id,
            },
            final(self).bindings == old(self).bindings,
    {
        match index_of_window(&self.windows, id) {
            Some(i) => Some(&mut self.windows[i]),
            None => None,
        }
    }

    fn next_event(&mut self) -> (r: Result<Event, Error>)
        ensures
            r matches Err(e) && is_backend_error(e, "Wayland event loop not yet implemented"@),
            *final(self) == *old(self),
    {
        Err(Error::Backend("Wayland event loop not yet implemented".to_owned()))
    }

    fn flush(&mut self) -> (r: Result<(), Error>)
        ensures
            r is Ok,
            *final(self) == *old(self),
    {
        Ok(())
    }

    fn monitor_rect(&self) -> (r: Rect)
        ensures
            r == (Rect { x: 0, y: 0, width: 1920, height: 1080 }),
    {
        Rect::new(0, 0, 1920, 1080)
    }
}

} // verus!
