//! Wayland compositor backend.
//!
//! Unlike the other backends, which act as clients of an existing compositor,
//! this one is the compositor: it owns the windows and sees every key press.

pub mod compositor;
pub mod input;
