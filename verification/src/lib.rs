//! Verified core of a tiling window manager.

pub mod action;
pub mod backend;
pub mod config;
pub mod default_laws;
pub mod error;
pub mod event;
pub mod geometry;
pub mod hotkey;
pub mod key_laws;
pub mod keyname_laws;
pub mod keynames;
pub mod layout;
pub mod layout_fit;
pub mod layout_laws;
pub mod macos;
pub mod manager;
pub mod rule_laws;
pub mod shape_laws;
pub mod text;
pub mod wayland;
pub mod window;
pub mod windows;
pub mod workspace;
pub mod workspace_laws;
