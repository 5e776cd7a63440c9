//! The window manager proper: which window goes where, what a keybinding does,
//! and what a status bar is told.
//!
//! [`state::Manager`] holds the workspaces and their assignment to monitors.
//! Every event becomes a change of that state and a list of
//! [`step::Step`]s for the platform to perform; the steps that need fresh facts
//! about windows are resolved by the functions of [`plan`].

pub mod action_laws;
pub mod actions;
pub mod borders;
pub mod effect_laws;
pub mod event_laws;
pub mod events;
pub mod focus;
pub mod info;
pub mod laws;
pub mod order_laws;
pub mod place_laws;
pub mod plan;
pub mod plan_laws;
pub mod ready;
pub mod reload;
pub mod reload_laws;
pub mod report_laws;
pub mod route_laws;
pub mod state;
pub mod status;
pub mod status_laws;
pub mod step;
