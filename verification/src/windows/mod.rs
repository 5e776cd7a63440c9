//! Win32 backend.
//!
//! Windows has no public interface for replacing the desktop window manager, so
//! this backend works as a client on top of it.  The modules here hold what the
//! backend remembers of its windows and what it decides; querying and moving
//! native windows is left to the caller, who passes the facts in.

pub mod backend;
pub mod hotkeys;
pub mod messages;
pub mod native;
pub mod number_laws;
pub mod overlay;
pub mod ready;
pub mod track_laws;
pub mod window;
