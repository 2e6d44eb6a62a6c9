//! Wallpaper agent for the niri compositor.
//!
//! The agent keeps a picture of the compositor (outputs, workspaces, windows), updates it from
//! compositor events, and decides which render and scroll commands the wallpaper daemon gets.
//! Everything here is pure state and decisions: sockets, threads and logging are the caller's.

pub mod lookup;
pub mod config;
pub mod compositor;
pub mod percent;
pub mod commands;
pub mod windows;
pub mod columns;
pub mod model;
pub mod consistency;
pub mod processor;
pub mod session;
pub mod agent;
pub mod terms;
pub mod laws;
pub mod placement;
pub mod effects;
pub mod looks;
pub mod reloads;
pub mod beginnings;
