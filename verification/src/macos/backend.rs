//! Window list and event source of the macOS backend.

use crate::backend::Backend;
use crate::error::{is_backend_error, Error};
use crate::event::{Event, KeybindingId};
use crate::hotkey::BindingMap;
use crate::macos::hotkeys::{receive, silent, HotkeyManager};
use crate::window::{first_window, index_of_window, window_refs, Rect, Window, WindowId};
use vstd::prelude::*;
use vstd::string::*;

verus! {

/// A window of some running application.
#[derive(Debug)]
pub struct MacosWindow {
    pub id: WindowId,
    pub title: String,
    pub geometry: Rect,
    pub floating: bool,
}

impl Window for MacosWindow {
    open spec fn number(&self) -> WindowId {
        self.id
    }

    fn id(&self) -> (r: WindowId)
        ensures
            r == self.id,
    {
        self.id
    }

    fn title(&self) -> (r: &str)
        ensures
            r@ == self.title@,
    {
        self.title.as_str()
    }

    fn geometry(&self) -> (r: Rect)
        ensures
            r == self.geometry,
    {
        self.geometry
    }

    fn set_geometry(&mut self, rect: Rect) -> (r: Result<(), Error>)
        ensures
            r is Ok,
            *final(self) == (MacosWindow { geometry: rect, ..*old(self) }),
    {
        self.geometry = rect;
        Ok(())
    }

    fn focus(&mut self) -> (r: Result<(), Error>)
        ensures
            r is Ok,
            *final(self) == *old(self),
    {
        Ok(())
    }

    fn close(&mut self) -> (r: Result<(), Error>)
        ensures
            r is Ok,
            *final(self) == *old(self),
    {
        Ok(())
    }

    fn is_floating(&self) -> (r: bool)
        ensures
            r == self.floating,
    {
        self.floating
    }

    fn set_floating(&mut self, floating: bool)
        ensures
            *final(self) == (MacosWindow { floating, ..*old(self) }),
    {
        self.floating = floating;
    }

    fn hide_window(&mut self) -> (r: Result<(), Error>)
        ensures
            r is Ok,
            *final(self) == *old(self),
    {
        Ok(())
    }

    fn show(&mut self) -> (r: Result<(), Error>)
        ensures
            r is Ok,
            *final(self) == *old(self),
    {
        Ok(())
    }

    fn park(&mut self) -> (r: Result<(), Error>)
        ensures
            r is Ok,
            *final(self) == *old(self),
    {
        self.hide_window()
    }

    fn enter_fullscreen_geometry(&mut self, rect: Rect) -> (r: Result<(), Error>)
        ensures
            r is Ok,
            *final(self) == (MacosWindow { geometry: rect, ..*old(self) }),
    {
        self.set_geometry(rect)
    }
}

/// The backend's state.
pub struct MacosBackend {
    pub windows: Vec<MacosWindow>,
    pub hotkeys: HotkeyManager,
}

impl MacosBackend {
    pub fn new(bindings: &BindingMap) -> (r: Result<Self, Error>)
        ensures
            r matches Ok(b) && b.windows@.len() == 0 && silent(b.hotkeys.receiver),
    {
        match HotkeyManager::register(bindings) {
            Ok(hotkeys) => Ok(Self { windows: Vec::new(), hotkeys }),
            Err(e) => Err(e),
        }
    }
}

/// `r` reports what came out of the hotkey channel: a fired keybinding, or an
/// error when the channel was closed.
pub open spec fn reports(r: Result<Event, Error>, received: Option<KeybindingId>) -> bool {
    match received {
        Some(id) => r == Ok::<Event, Error>(Event::Keybinding(id)),
        None => r matches Err(e) && is_backend_error(e, "hotkey channel closed unexpectedly"@),
    }
}

/// The event for what came out of the hotkey channel.
pub fn hotkey_event(received: Option<KeybindingId>) -> (r: Result<Event, Error>)
    ensures
        reports(r, received),
{
    match received {
        Some(id) => Ok(Event::Keybinding(id)),
        None => Err(Error::Backend("hotkey channel closed unexpectedly".to_owned())),
    }
}

impl Backend for MacosBackend {
    type W = MacosWindow;

    fn windows(&self) -> (r: Vec<&MacosWindow>)
        ensures
            r@.len() == self.windows@.len(),
            forall|i: int| 0 <= i < r@.len() ==> *(#[trigger] r@[i]) == self.windows@[i],
    {
        window_refs(&self.windows)
    }

    fn window_mut(&mut self, id: WindowId) -> (r: Option<&mut MacosWindow>)
        ensures
            match r {
                Some(w) => exists|i: int|
                    #[trigger] first_window(old(self).windows@, id, i) && *w == old(
                        self,
                    ).windows@[i] && final(self).windows@ == old(self).windows@.update(
                        i,
                        *final(w),
                    ),
                None => final(self).windows@ == old(self).windows@ && forall|i: int|
                    0 <= i < old(self).windows@.len() ==> (#[trigger] old(self).windows@[i]).id
                        != id,
            },
            final(self).hotkeys == old(self).hotkeys,
    {
        match index_of_window(&self.windows, id) {
            Some(i) => Some(&mut self.windows[i]),
            None => None,
        }
    }

    fn next_event(&mut self) -> (r: Result<Event, Error>)
        ensures
            exists|received: Option<KeybindingId>| #[trigger] reports(r, received),
            silent(old(self).hotkeys.receiver) ==> reports(r, None),
            *final(self) == *old(self),
    {
        let received = receive(&self.hotkeys.receiver);
        hotkey_event(received)
    }

    fn flush(&mut self) -> (r: Result<(), Error>)
        ensures
            r is Ok,
            *final(self) == *old(self),
    {
        Ok(())
    }

    fn monitor_rect(&self) -> (r: Rect)
        ensures
            r == (Rect { x: 0, y: 0, width: 1920, height: 1080 }),
    {
        Rect::new(0, 0, 1920, 1080)
    }
}

} // verus!
