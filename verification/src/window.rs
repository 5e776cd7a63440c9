//! Platform-agnostic window primitives.
//!
//! The [`Window`] trait is the portability seam: platform backends implement
//! it, and the rest of the manager only sees this trait.

use crate::error::Error;
use crate::text::{decimal, push_decimal};
use vstd::prelude::*;
use vstd::string::*;

verus! {

/// Opaque, stable identifier for a managed window.
///
/// Each backend assigns identifiers; they are never reused within a session.
#[derive(Debug, Clone, Copy, PartialEq, Eq, Structural, Hash)]
pub struct WindowId(pub u64);

impl WindowId {
    /// Text form, such as `win:42`.
    pub fn to_string(&self) -> (r: String)
        ensures
            r@ == "win:"@ + decimal(self.0 as nat),
    {
        let mut out = "win:".to_owned();
        push_decimal(&mut out, self.0);
        out
    }
}

/// Axis-aligned rectangle in physical screen pixels.
#[derive(Debug, Clone, Copy, PartialEq, Eq, Structural)]
pub struct Rect {
    pub x: i32,
    pub y: i32,
    pub width: u32,
    pub height: u32,
}

impl Rect {
    pub fn new(x: i32, y: i32, width: u32, height: u32) -> (r: Self)
        ensures
            r == (Rect { x, y, width, height }),
    {
        Self { x, y, width, height }
    }
}

/// Platform-agnostic view of a managed window.
///
/// Methods return `Result` only where a system call is required, and
/// implementations are `Send + Sync` so that the event loop can run on any
/// thread.  What a native call answers is up to the platform, so the trait
/// promises nothing of it; each implementation states what it does.
pub trait Window: Sized + Send + Sync + 'static {
    /// The identifier of the window.
    spec fn number(&self) -> WindowId;

    fn id(&self) -> (r: WindowId)
        ensures
            r == self.number(),
    ;

    fn title(&self) -> &str;

    fn geometry(&self) -> Rect;

    fn set_geometry(&mut self, rect: Rect) -> Result<(), Error>;

    fn focus(&mut self) -> Result<(), Error>;

    fn close(&mut self) -> Result<(), Error>;

    fn is_floating(&self) -> bool;

    fn set_floating(&mut self, floating: bool);

    /// Make the window invisible on screen without destroying it.
    fn hide_window(&mut self) -> Result<(), Error>;

    /// Restore a hidden window to visibility.
    fn show(&mut self) -> Result<(), Error>;

    /// Take the window off screen while it keeps its taskbar entry.
    ///
    /// Backends without such a notion hide the window instead.
    fn park(&mut self) -> Result<(), Error>;

    /// Bring the window to the top of the normal z-band without activating it.
    fn raise(&mut self) -> (r: Result<(), Error>)
        default_ensures
            r is Ok,
            *final(self) == *old(self),
    {
        Ok(())
    }

    /// Cover `rect`, above every other window.
    ///
    /// Backends without z-order control only move the window.
    fn enter_fullscreen_geometry(&mut self, rect: Rect) -> Result<(), Error>;

    /// Set the window border colour; `rgb` is `0x00RRGGBB`.
    fn set_border_color(&mut self, rgb: u32) -> (r: Result<(), Error>)
        default_ensures
            r is Ok,
            *final(self) == *old(self),
    {
        Ok(())
    }

    /// Whether the window is minimised.  Minimised windows do not count toward
    /// the tiling layout.
    fn is_minimized(&self) -> (r: bool)
        default_ensures
            !r,
    {
        false
    }

    /// Create or update a border ring drawn around this window.
    fn set_border_overlay(&mut self, rgb: u32, width: u32, radius: u32) -> (r: Result<(), Error>)
        default_ensures
            r is Ok,
            *final(self) == *old(self),
    {
        Ok(())
    }

    /// Hide the border ring without destroying it.
    fn hide_border_overlay(&mut self) -> (r: Result<(), Error>)
        default_ensures
            r is Ok,
            *final(self) == *old(self),
    {
        Ok(())
    }

    /// Set window opacity (0 = fully transparent, 255 = opaque).
    fn set_alpha(&mut self, alpha: u8) -> (r: Result<(), Error>)
        default_ensures
            r is Ok,
            *final(self) == *old(self),
    {
        Ok(())
    }

    /// Remove the opacity override applied by `set_alpha`.
    fn clear_alpha(&mut self) -> (r: Result<(), Error>)
        default_ensures
            r is Ok,
            *final(self) == *old(self),
    {
        Ok(())
    }

    /// Place this window above all non-topmost windows (`true`) or restore
    /// normal z-order (`false`).
    fn set_topmost(&mut self, topmost: bool) -> (r: Result<(), Error>)
        default_ensures
            r is Ok,
            *final(self) == *old(self),
    {
        Ok(())
    }
}

/// Window `i` is the first with the identifier `id`.
pub open spec fn first_window<W: Window>(windows: Seq<W>, id: WindowId, i: int) -> bool {
    &&& 0 <= i < windows.len()
    &&& windows[i].number() == id
    &&& forall|j: int| 0 <= j < i ==> (#[trigger] windows[j]).number() != id
}

/// The first window with the identifier `id`.
pub fn index_of_window<W: Window>(windows: &Vec<W>, id: WindowId) -> (r: Option<usize>)
    ensures
        match r {
            Some(i) => first_window(windows@, id, i as int),
            None => forall|i: int|
                0 <= i < windows@.len() ==> (#[trigger] windows@[i]).number() != id,
        },
{
    let mut i: usize = 0;
    while i < windows.len()
        invariant
            i <= windows@.len(),
            forall|j: int| 0 <= j < i ==> (#[trigger] windows@[j]).number() != id,
        decreases windows@.len() - i,
    {
        if windows[i].id() == id {
            return Some(i);
        }
        i += 1;
    }
    None
}

/// All windows, in order.
pub fn window_refs<W: Window>(windows: &Vec<W>) -> (r: Vec<&W>)
    ensures
        r@.len() == windows@.len(),
        forall|i: int| 0 <= i < r@.len() ==> *(#[trigger] r@[i]) == windows@[i],
{
    let mut r: Vec<&W> = Vec::new();
    let mut i: usize = 0;
    while i < windows.len()
        invariant
            i <= windows@.len(),
            r@.len() == i,
            forall|j: int| 0 <= j < i ==> *(#[trigger] r@[j]) == windows@[j],
        decreases windows@.len() - i,
    {
        r.push(&windows[i]);
        i += 1;
    }
    r
}

} // verus!
