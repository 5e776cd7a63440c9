//! macOS Accessibility backend.

pub mod backend;
pub mod hotkeys;
